use empire::comm::{
    settle, world_size_of, Comm, Launch, LaunchOutcome, PendingSpawn, SpawnCommandInfo,
};
use empire::error::{Error, IoFailure, IoKind};
use empire::port::Port;

fn request(command: &str, args: &[&str], procs: usize) -> SpawnCommandInfo {
    let mut info = SpawnCommandInfo::new(
        String::from(command),
        args.iter().map(|arg| String::from(*arg)).collect(),
    );
    info.max_procs(procs);
    info
}

fn exited(code: i32) -> LaunchOutcome {
    LaunchOutcome::Exited { success: code == 0, code: Some(code) }
}

fn not_found() -> LaunchOutcome {
    LaunchOutcome::Failed(IoFailure::new(
        IoKind::NotFound,
        String::from("No such file or directory (os error 2)"),
    ))
}

fn alone() -> Comm {
    Comm::intracomm(0, 1, Port::new(4000))
}

#[test]
fn port_name_is_a_loopback_address() {
    let port = Port::new(41234);
    assert_eq!(port.name(), "127.0.0.1:41234");
    assert_eq!(port.port_number(), 41234);
    let (host, number) = port.name().split_once(':').unwrap();
    assert_eq!(host, "127.0.0.1");
    assert_eq!(number.parse::<u16>(), Ok(41234));
    assert_eq!(Port::new(1).name(), "127.0.0.1:1");
    assert_eq!(Port::new(u16::MAX).name(), "127.0.0.1:65535");
}

#[test]
fn port_names_read_back() {
    for number in [1u16, 9, 10, 80, 8080, 41234, 65535] {
        let port = Port::new(number);
        assert_eq!(Port::from_name(port.name()), Some(Port::new(number)));
    }
    assert_eq!(Port::from_name("127.0.0.1:80").map(|port| port.port_number()), Some(80));
}

#[test]
fn other_texts_are_no_port_names() {
    let others = [
        "",
        "127.0.0.1",
        "127.0.0.1:",
        "127.0.0.1:0",
        "127.0.0.1:00",
        "127.0.0.1:080",
        "127.0.0.1:+80",
        "127.0.0.1:-80",
        "127.0.0.1:80 ",
        " 127.0.0.1:80",
        "127.0.0.1:65536",
        "127.0.0.1:99999999999999999999",
        "127.0.0.1:8o",
        "127.0.0.2:80",
        "127.0.0.1;80",
        "localhost:80",
        "[::1]:80",
        "127.0.0.1:\u{663}",
        "\u{661}27.0.0.1:80",
    ];
    for text in others.iter() {
        assert_eq!(Port::from_name(text), None, "{:?}", text);
    }
}

#[test]
fn ports_with_different_numbers_have_different_names() {
    assert_ne!(Port::new(5000).name(), Port::new(5001).name());
    assert_eq!(Port::new(5000), Port::new(5000));
}

#[test]
fn spawn_command_info_defaults_to_one_process() {
    let info = SpawnCommandInfo::new(String::from("worker"), vec![String::from("-v")]);
    assert_eq!(info.procs(), 1);
    assert_eq!(info.command(), "worker");
    assert_eq!(info.args(), &vec![String::from("-v")]);
    let mut info = info;
    info.max_procs(4);
    assert_eq!(info.procs(), 4);
    assert_eq!(info.command(), "worker");
    assert_eq!(info.max_procs(2).max_procs(3).procs(), 3);
    assert_eq!(info.procs(), 3);
    assert_eq!(info.args(), &vec![String::from("-v")]);
}

#[test]
fn intracomm_fills_only_its_own_port_slot() {
    let comm = Comm::intracomm(1, 3, Port::new(4001));
    assert_eq!(comm.rank(), 1);
    assert_eq!(comm.size(), 3);
    assert!(!comm.is_intercomm());
    assert_eq!(comm.name(), None);
    assert_eq!(comm.port_count(), 3);
    assert_eq!(comm.port(0), &None);
    assert_eq!(comm.port(1), &Some(Port::new(4001)));
    assert_eq!(comm.port(2), &None);
}

#[test]
fn intercomm_has_size_two_and_one_port() {
    for rank in 0..2 {
        let comm = Comm::intercomm(rank, Port::new(4002));
        assert_eq!(comm.rank(), rank);
        assert_eq!(comm.size(), 2);
        assert!(comm.is_intercomm());
        assert_eq!(comm.port_count(), 2);
        assert_eq!(comm.port(0).as_ref().unwrap().name(), "127.0.0.1:4002");
        assert_eq!(comm.port(1), &None);
    }
}

#[test]
fn port_names_list_the_filled_slots() {
    assert_eq!(Comm::intracomm(2, 4, Port::new(4010)).port_names(), vec!["127.0.0.1:4010"]);
    assert_eq!(Comm::intercomm(1, Port::new(4011)).port_names(), vec!["127.0.0.1:4011"]);
}

#[test]
fn set_name_changes_the_name_only() {
    let mut comm = Comm::intracomm(0, 2, Port::new(4003));
    comm.set_name(String::from("workers"));
    assert_eq!(comm.name(), Some("workers"));
    assert_eq!(comm.rank(), 0);
    assert_eq!(comm.size(), 2);
    assert!(!comm.is_intercomm());
    comm.set_name(String::from("others"));
    assert_eq!(comm.name(), Some("others"));
}

#[test]
fn world_ranks_follow_the_flattened_batch() {
    let batch = vec![request("A", &["x"], 2), request("B", &[], 1)];
    let pending = alone().spawn_multiple_async(Some(batch), 0, Port::new(4100));
    let launches = &pending.launches;
    assert_eq!(launches.len(), 3);
    let expected = [("A", 0usize), ("A", 1), ("B", 2)];
    for (launch, (command, rank)) in launches.iter().zip(expected.iter()) {
        assert_eq!(launch.command, *command);
        assert_eq!(launch.world_rank, *rank);
        assert_eq!(launch.world_size, 3);
        assert_eq!(launch.parent_port, "127.0.0.1:4100");
    }
    assert_eq!(launches[0].args, vec![String::from("x")]);
    assert_eq!(launches[1].args, vec![String::from("x")]);
    assert!(launches[2].args.is_empty());
    assert!(pending.comm.is_intercomm());
    assert_eq!(pending.comm.size(), 2);
    assert_eq!(pending.comm.rank(), 0);
    assert_eq!(pending.comm.port(0).as_ref().unwrap().name(), "127.0.0.1:4100");
}

#[test]
fn world_ranks_do_not_depend_on_which_process_ends_first() {
    let first = alone()
        .spawn_multiple(
            Some(vec![request("A", &[], 2), request("B", &[], 1)]),
            0,
            Port::new(4101),
            vec![exited(0), exited(7), exited(0)],
        )
        .results;
    assert_eq!(first, vec![Ok(()), Err(Error::FailExitCode(7)), Ok(())]);
    let second = alone()
        .spawn_multiple(
            Some(vec![request("A", &[], 2), request("B", &[], 1)]),
            0,
            Port::new(4101),
            vec![exited(0), exited(0), exited(7)],
        )
        .results;
    assert_eq!(second, vec![Ok(()), Ok(()), Err(Error::FailExitCode(7))]);
}

#[test]
fn launch_environment_carries_rank_size_and_parent() {
    let batch = vec![request("A", &[], 12)];
    let pending = alone().spawn_multiple_root_async(batch, 0, Port::new(4102));
    let pairs = pending.launches[11].environment();
    assert_eq!(
        pairs,
        vec![
            (String::from("EMPIRE_COMM_WORLD_RANK"), String::from("11")),
            (String::from("EMPIRE_COMM_WORLD_SIZE"), String::from("12")),
            (String::from("EMPIRE_COMM_WORLD_PARENT_PORT"), String::from("127.0.0.1:4102")),
        ]
    );
}

#[test]
fn missing_command_is_reported_beside_success() {
    let batch = vec![request("missing", &[], 2), request("present", &[], 1)];
    let result = alone().spawn_multiple_root(
        batch,
        0,
        Port::new(4103),
        vec![not_found(), not_found(), exited(0)],
    );
    assert_eq!(
        result.results,
        vec![
            Err(Error::CommandNotFound(String::from("missing"))),
            Err(Error::CommandNotFound(String::from("missing"))),
            Ok(()),
        ]
    );
    assert!(result.comm.is_intercomm());
    assert_eq!(result.comm.size(), 2);
}

#[test]
fn each_outcome_has_its_report() {
    let launch = Launch {
        command: String::from("tool"),
        args: Vec::new(),
        world_rank: 0,
        world_size: 1,
        parent_port: String::from("127.0.0.1:9"),
    };
    assert_eq!(settle(&launch, &exited(0)), Ok(()));
    assert_eq!(settle(&launch, &exited(3)), Err(Error::FailExitCode(3)));
    assert_eq!(settle(&launch, &exited(-9)), Err(Error::FailExitCode(-9)));
    assert_eq!(
        settle(&launch, &LaunchOutcome::Exited { success: false, code: None }),
        Err(Error::FailExitCode(-1))
    );
    assert_eq!(
        settle(&launch, &not_found()),
        Err(Error::CommandNotFound(String::from("tool")))
    );
    let denied = IoFailure::new(IoKind::Other, String::from("Permission denied (os error 13)"));
    assert_eq!(
        settle(&launch, &LaunchOutcome::Failed(denied.duplicate())),
        Err(Error::IoError(denied))
    );
}

#[test]
fn a_request_for_no_process_launches_none() {
    let batch = vec![request("A", &[], 0), request("B", &[], 2), request("C", &[], 0)];
    let pending = alone().spawn_multiple_async(Some(batch), 0, Port::new(4104));
    assert_eq!(pending.launches.len(), 2);
    assert_eq!(pending.launches[0].command, "B");
    assert_eq!(pending.launches[1].command, "B");
    assert_eq!(pending.launches[1].world_rank, 1);
    assert_eq!(pending.launches[1].world_size, 2);
    let empty = alone().spawn_multiple_async(Some(Vec::new()), 0, Port::new(4105));
    assert!(empty.launches.is_empty());
    assert!(empty.complete(Vec::new()).results.is_empty());
}

#[test]
fn world_size_is_the_sum_of_the_counts() {
    assert_eq!(world_size_of(&Vec::new()), Some(0));
    assert_eq!(world_size_of(&vec![request("A", &[], 2), request("B", &[], 1)]), Some(3));
    assert_eq!(
        world_size_of(&vec![request("A", &[], usize::MAX), request("B", &[], 0)]),
        Some(usize::MAX)
    );
    assert_eq!(
        world_size_of(&vec![request("A", &[], usize::MAX), request("B", &[], 1)]),
        None
    );
}

#[test]
fn pending_spawn_settles_by_position() {
    let pending: PendingSpawn = alone().spawn_multiple_async(
        Some(vec![request("A", &[], 1), request("B", &[], 1)]),
        0,
        Port::new(4106),
    );
    let result = pending.complete(vec![exited(1), not_found()]);
    assert_eq!(
        result.results,
        vec![Err(Error::FailExitCode(1)), Err(Error::CommandNotFound(String::from("B")))]
    );
}

#[test]
fn attach_children_records_the_launches() {
    let pending = alone().spawn_multiple_async(
        Some(vec![request("A", &[], 2)]),
        0,
        Port::new(4107),
    );
    let PendingSpawn { mut comm, launches } = pending;
    comm.attach_children(launches);
    assert!(comm.is_intercomm());
    assert_eq!(comm.rank(), 0);
}

#[test]
fn errors_describe_themselves() {
    let not_found = Error::CommandNotFound(String::from("tool"));
    assert_eq!(not_found.description(), "empire could not find the requested command");
    assert_eq!(not_found.to_string(), "empire could not find the command 'tool'");
    let no_port = Error::NoSuchPort(String::from("127.0.0.1:1"));
    assert_eq!(no_port.description(), "empire could not find a port with the given name");
    assert_eq!(no_port.to_string(), "empire could not find the port '127.0.0.1:1'");
    let io = Error::IoError(IoFailure::new(IoKind::Other, String::from("broken pipe")));
    assert_eq!(io.description(), "broken pipe");
    assert_eq!(io.to_string(), "broken pipe");
    let code = Error::FailExitCode(-3);
    assert_eq!(code.description(), "launched process exited early with a failure code");
    assert_eq!(code.to_string(), "child process exited with code '-3'");
    assert_eq!(Error::FailExitCode(17).to_string(), "child process exited with code '17'");
    assert_eq!(code.duplicate(), code);
    assert_eq!(io.duplicate(), io);
}
