use empire::comm::Comm;
use empire::error::Error;
use empire::port::Port;
use empire::universe::{read_integer_variable, EnvValue, Reading, Universe};

fn present(text: &str) -> EnvValue {
    EnvValue::Present(String::from(text))
}

fn universe() -> Universe {
    Universe::root(Port::new(6000), Port::new(6001))
}

#[test]
fn root_universe_stands_alone() {
    let universe = universe();
    assert_eq!(universe.comm_self().size(), 1);
    assert_eq!(universe.comm_self().rank(), 0);
    assert!(!universe.comm_self().is_intercomm());
    assert_eq!(universe.comm_self().port(0).as_ref().unwrap().name(), "127.0.0.1:6000");
    assert_eq!(universe.comm_world().size(), 1);
    assert_eq!(universe.comm_world().rank(), 0);
    assert!(!universe.comm_world().is_intercomm());
    assert_eq!(universe.comm_world().port(0).as_ref().unwrap().name(), "127.0.0.1:6001");
    assert!(universe.room());
}

#[test]
fn universe_from_env_takes_rank_and_size() {
    let universe = Universe::from_env(&present("2"), &present("4"), Port::new(6002), Port::new(6003));
    assert_eq!(universe.comm_self().size(), 1);
    assert_eq!(universe.comm_world().rank(), 2);
    assert_eq!(universe.comm_world().size(), 4);
    assert_eq!(universe.comm_world().port_count(), 4);
    assert_eq!(universe.comm_world().port(2).as_ref().unwrap().name(), "127.0.0.1:6003");
    assert_eq!(universe.comm_world().port(0), &None);
}

#[test]
fn universe_from_env_falls_back_to_one_process() {
    let universe = Universe::from_env(
        &EnvValue::NotPresent,
        &EnvValue::NotPresent,
        Port::new(6004),
        Port::new(6005),
    );
    assert_eq!(universe.comm_world().rank(), 0);
    assert_eq!(universe.comm_world().size(), 1);
    let universe = Universe::from_env(&present("zero"), &present("0"), Port::new(6006), Port::new(6007));
    assert_eq!(universe.comm_world().rank(), 0);
    assert_eq!(universe.comm_world().size(), 1);
}

#[test]
fn integer_variable_is_read_or_defaulted() {
    assert_eq!(
        read_integer_variable(&present("17"), 0, 0),
        Reading { value: 17, fell_back: false }
    );
    assert_eq!(
        read_integer_variable(&present("0"), 0, 5),
        Reading { value: 0, fell_back: false }
    );
    assert_eq!(
        read_integer_variable(&present("0"), 1, 1),
        Reading { value: 1, fell_back: true }
    );
    assert_eq!(
        read_integer_variable(&present("3"), 1, 1),
        Reading { value: 3, fell_back: false }
    );
    assert_eq!(
        read_integer_variable(&present("-3"), 0, 9),
        Reading { value: 9, fell_back: true }
    );
    assert_eq!(
        read_integer_variable(&present(""), 0, 9),
        Reading { value: 9, fell_back: true }
    );
    assert_eq!(
        read_integer_variable(&EnvValue::NotPresent, 0, 2),
        Reading { value: 2, fell_back: true }
    );
}

#[test]
fn closing_an_unknown_port_reports_no_such_port() {
    let mut universe = universe();
    assert_eq!(
        universe.close_port("127.0.0.1:7000"),
        Err(Error::NoSuchPort(String::from("127.0.0.1:7000")))
    );
    assert_eq!(universe.close_port(""), Err(Error::NoSuchPort(String::new())));
}

#[test]
fn closing_a_port_twice_reports_no_such_port() {
    let mut universe = universe();
    let name = String::from(universe.open_port(Port::new(7001)).name());
    assert_eq!(name, "127.0.0.1:7001");
    assert!(universe.has_port(&name));
    assert_eq!(universe.close_port(&name), Ok(()));
    assert!(!universe.has_port(&name));
    assert_eq!(universe.close_port(&name), Err(Error::NoSuchPort(name.clone())));
    assert_eq!(universe.close_port(&name), Err(Error::NoSuchPort(name)));
}

#[test]
fn open_ports_are_kept_by_name() {
    let mut universe = universe();
    universe.open_port(Port::new(7002));
    universe.open_port(Port::new(7003));
    assert!(universe.has_port("127.0.0.1:7002"));
    assert!(universe.has_port("127.0.0.1:7003"));
    assert!(!universe.has_port("127.0.0.1:7004"));
    assert_eq!(universe.close_port("127.0.0.1:7002"), Ok(()));
    assert!(universe.has_port("127.0.0.1:7003"));
    assert_eq!(universe.comm_self().size(), 1);
}

#[test]
fn registered_comm_resolves_until_freed() {
    let mut universe = universe();
    let registration = universe.register_comm(Comm::intercomm(0, Port::new(7005)));
    assert!(universe.can_free(&registration));
    let comm = registration.unwrap(&universe);
    assert!(comm.is_intercomm());
    assert_eq!(comm.size(), 2);
    let stale = registration.duplicate();
    universe.free_comm(registration);
    assert!(stale.get(&universe).is_none());
    assert!(!universe.can_free(&stale));
    assert_eq!(universe.comm_self().size(), 1);
    assert_eq!(universe.comm_world().size(), 1);
}

#[test]
fn stale_registration_does_not_reach_the_next_comm() {
    let mut universe = universe();
    let first = universe.register_comm(Comm::intercomm(0, Port::new(7006)));
    let stale = first.duplicate();
    universe.free_comm(first);
    let second = universe.register_comm(Comm::intracomm(1, 5, Port::new(7007)));
    assert!(stale.get(&universe).is_none());
    assert!(!universe.can_free(&stale));
    assert_eq!(second.unwrap(&universe).size(), 5);
    assert!(universe.can_free(&second));
}
