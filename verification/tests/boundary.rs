use empire::comm::{Comm, LaunchOutcome};
use empire::error::{Error, IoFailure, IoKind};
use empire::mpi::buffer::c_string_of;
use empire::mpi::comm::{
    may_free, MPI_Comm_free, MPI_Comm_get_parent, MPI_Comm_rank, MPI_Comm_size,
    MPI_Comm_test_inter,
};
use empire::mpi::constants::MAX_PORT_NAME;
use empire::mpi::convert::{c_int_of, size_of_c_int};
use empire::mpi::handles::{CommHandle, MPI_Comm, StandingComm};
use empire::mpi::init::Runtime;
use empire::mpi::port::{MPI_Close_port, MPI_Open_port};
use empire::mpi::spawn::{
    batch_is_given, complete_spawn, MPI_Comm_spawn, MPI_Comm_spawn_multiple,
};
use empire::mpi::status::{result_to_mpi_error, to_mpi_error, Error as Status};
use empire::port::Port;
use empire::universe::{EnvValue, Universe};

fn universe() -> Universe {
    Universe::root(Port::new(8000), Port::new(8001))
}

fn words(line: &[&str]) -> Vec<String> {
    line.iter().map(|word| String::from(*word)).collect()
}

fn started_runtime() -> Runtime {
    let mut runtime = Runtime::new();
    let status = runtime.initialize_mpi(
        &EnvValue::Present(String::from("1")),
        &EnvValue::Present(String::from("3")),
        Port::new(8002),
        Port::new(8003),
    );
    assert_eq!(status, Status::MPI_SUCCESS);
    runtime
}

#[test]
fn sizes_convert_to_c_int_when_they_fit() {
    assert_eq!(c_int_of(0), Some(0));
    assert_eq!(c_int_of(5), Some(5));
    assert_eq!(c_int_of(i32::MAX as usize), Some(i32::MAX));
    assert_eq!(c_int_of(i32::MAX as usize + 1), None);
    assert_eq!(c_int_of(usize::MAX), None);
}

#[test]
fn c_ints_convert_to_sizes_when_not_negative() {
    assert_eq!(size_of_c_int(0), Some(0));
    assert_eq!(size_of_c_int(7), Some(7));
    assert_eq!(size_of_c_int(i32::MAX), Some(i32::MAX as usize));
    assert_eq!(size_of_c_int(-1), None);
    assert_eq!(size_of_c_int(i32::MIN), None);
}

#[test]
fn failures_map_to_their_status() {
    assert_eq!(to_mpi_error(Error::CommandNotFound(String::from("x"))), Status::MPI_ERR_NO_SUCH_FILE);
    assert_eq!(to_mpi_error(Error::NoSuchPort(String::from("x"))), Status::MPI_ERR_PORT);
    assert_eq!(
        to_mpi_error(Error::IoError(IoFailure::new(IoKind::Other, String::from("x")))),
        Status::MPI_ERR_IO
    );
    assert_eq!(to_mpi_error(Error::FailExitCode(2)), Status::MPI_ERR_SPAWN);
    assert_eq!(result_to_mpi_error(&Ok(())), Status::MPI_SUCCESS);
    assert_eq!(result_to_mpi_error(&Err(Error::FailExitCode(2))), Status::MPI_ERR_SPAWN);
}

#[test]
fn status_codes_count_from_zero() {
    assert_eq!(Status::MPI_SUCCESS.code(), 0);
    assert_eq!(Status::MPI_ERR_BUFFER.code(), 1);
    assert_eq!(Status::MPI_ERR_INFO_KEY.code(), 31);
    assert_eq!(Status::MPI_ERR_IO.code(), 35);
    assert_eq!(Status::MPI_ERR_NO_SUCH_FILE.code(), 42);
    assert_eq!(Status::MPI_ERR_PORT.code(), 43);
    assert_eq!(Status::MPI_ERR_SPAWN.code(), 54);
    assert_eq!(Status::MPI_ERR_LASTCODE.code(), 74);
}

#[test]
fn c_string_closes_and_cuts() {
    assert_eq!(c_string_of("abc", 8), vec![b'a', b'b', b'c', 0]);
    assert_eq!(c_string_of("abc", 4), vec![b'a', b'b', b'c', 0]);
    assert_eq!(c_string_of("abcdef", 4), vec![b'a', b'b', b'c', 0]);
    assert_eq!(c_string_of("abcdef", 1), vec![0]);
    assert_eq!(c_string_of("", 3), vec![0]);
}

#[test]
fn system_handles_lead_to_the_standing_comms() {
    let runtime = started_runtime();
    let universe = runtime.universe();
    assert_eq!(MPI_Comm_rank(universe, &runtime.comm_self), (Status::MPI_SUCCESS, 0));
    assert_eq!(MPI_Comm_size(universe, &runtime.comm_self), (Status::MPI_SUCCESS, 1));
    assert_eq!(MPI_Comm_rank(universe, &runtime.comm_world), (Status::MPI_SUCCESS, 1));
    assert_eq!(MPI_Comm_size(universe, &runtime.comm_world), (Status::MPI_SUCCESS, 3));
    assert_eq!(MPI_Comm_test_inter(universe, &runtime.comm_world), (Status::MPI_SUCCESS, 0));
    assert!(runtime.comm_null.is_null());
    assert!(!runtime.comm_self.is_null());
    assert!(runtime.info_null.is_null());
    assert!(!may_free(universe, &runtime.comm_self));
    assert!(!may_free(universe, &runtime.comm_world));
    assert!(!may_free(universe, &runtime.comm_null));
    assert!(!runtime.comm_null.handle.as_ref().unwrap().is_usable(universe));
    assert!(runtime.comm_world.handle.as_ref().unwrap().is_usable(universe));
}

#[test]
fn runtime_is_set_up_once_and_torn_down_once() {
    let mut runtime = Runtime::new();
    assert!(!runtime.is_initialized());
    assert!(runtime.comm_self.handle.is_none());
    let status = runtime.initialize_mpi(
        &EnvValue::NotPresent,
        &EnvValue::NotPresent,
        Port::new(8004),
        Port::new(8005),
    );
    assert_eq!(status, Status::MPI_SUCCESS);
    assert!(runtime.is_initialized());
    assert_eq!(runtime.universe().comm_world().size(), 1);
    assert_eq!(runtime.MPI_Finalize(), Status::MPI_SUCCESS);
    assert!(!runtime.is_initialized());
    assert!(runtime.comm_self.handle.is_none());
    assert!(runtime.comm_world.handle.is_none());
    assert!(runtime.comm_null.handle.is_none());
    assert!(runtime.info_null.handle.is_none());
}

#[test]
fn get_parent_succeeds_without_a_handle() {
    assert_eq!(MPI_Comm_get_parent(), Status::MPI_SUCCESS);
}

#[test]
fn freed_user_handle_holds_the_null_comm() {
    let mut universe = universe();
    let registration = universe.register_comm(Comm::intercomm(0, Port::new(8006)));
    let stale = registration.duplicate();
    let mut handle = MPI_Comm::new(CommHandle::UserComm(registration));
    assert!(may_free(&universe, &handle));
    assert_eq!(MPI_Comm_test_inter(&universe, &handle), (Status::MPI_SUCCESS, 1));
    assert_eq!(MPI_Comm_size(&universe, &handle), (Status::MPI_SUCCESS, 2));
    assert_eq!(MPI_Comm_free(&mut universe, &mut handle), Status::MPI_SUCCESS);
    assert!(handle.is_null());
    assert!(!may_free(&universe, &handle));
    assert!(!handle.handle.as_ref().unwrap().is_usable(&universe));
    let copy = MPI_Comm::new(CommHandle::UserComm(stale));
    assert!(!may_free(&universe, &copy));
    assert!(!copy.handle.as_ref().unwrap().is_usable(&universe));
}

#[test]
fn only_user_handles_may_be_freed() {
    let universe = universe();
    assert!(!may_free(&universe, &MPI_Comm::new(CommHandle::NullComm)));
    assert!(!may_free(&universe, &MPI_Comm::new(CommHandle::SystemComm(StandingComm::Alone))));
    assert!(!may_free(&universe, &MPI_Comm::new(CommHandle::SystemComm(StandingComm::World))));
    assert!(!may_free(&universe, &MPI_Comm { handle: None }));
}

#[test]
fn expect_user_comm_leaves_the_null_comm() {
    let mut universe = universe();
    let registration = universe.register_comm(Comm::intracomm(0, 2, Port::new(8007)));
    let mut handle = MPI_Comm::new(CommHandle::UserComm(registration));
    let taken = handle.expect_user_comm();
    assert!(handle.is_null());
    assert_eq!(taken.unwrap(&universe).size(), 2);
    handle.free();
    assert!(handle.handle.is_none());
}

#[test]
fn open_port_gives_the_name_for_the_buffer() {
    let mut universe = universe();
    let (status, name) = MPI_Open_port(&mut universe, Port::new(8100));
    assert_eq!(status, Status::MPI_SUCCESS);
    assert_eq!(name, b"127.0.0.1:8100\0".to_vec());
    assert!(name.len() <= MAX_PORT_NAME);
    assert!(universe.has_port("127.0.0.1:8100"));
}

#[test]
fn close_port_reports_the_port_status() {
    let mut universe = universe();
    assert_eq!(MPI_Close_port(&mut universe, "127.0.0.1:8101"), Status::MPI_ERR_PORT);
    MPI_Open_port(&mut universe, Port::new(8101));
    assert_eq!(MPI_Close_port(&mut universe, "127.0.0.1:8101"), Status::MPI_SUCCESS);
    assert_eq!(MPI_Close_port(&mut universe, "127.0.0.1:8101"), Status::MPI_ERR_PORT);
}

#[test]
fn spawn_multiple_registers_the_intercomm() {
    let mut runtime = started_runtime();
    let commands = words(&["missing", "present"]);
    let argvs = vec![words(&["-a"]), words(&[])];
    let maxprocs = vec![2, 1];
    let pending = MPI_Comm_spawn_multiple(
        runtime.universe(),
        2,
        Some(&commands),
        Some(&argvs),
        Some(&maxprocs),
        0,
        &runtime.comm_self,
        Port::new(8200),
    );
    assert_eq!(pending.launches.len(), 3);
    assert_eq!(pending.launches[0].command, "missing");
    assert_eq!(pending.launches[1].args, words(&["-a"]));
    assert_eq!(pending.launches[2].command, "present");
    assert_eq!(pending.launches[2].world_rank, 2);
    assert_eq!(pending.launches[2].world_size, 3);
    assert_eq!(pending.launches[2].parent_port, "127.0.0.1:8200");
    let missing = || {
        LaunchOutcome::Failed(IoFailure::new(IoKind::NotFound, String::from("not found")))
    };
    let outcomes =
        vec![missing(), missing(), LaunchOutcome::Exited { success: true, code: Some(0) }];
    let universe = runtime.universe.as_mut().unwrap();
    let report = complete_spawn(universe, pending, outcomes, 3);
    assert_eq!(report.status, Status::MPI_SUCCESS);
    assert_eq!(
        report.errcodes,
        vec![Status::MPI_ERR_NO_SUCH_FILE, Status::MPI_ERR_NO_SUCH_FILE, Status::MPI_SUCCESS]
    );
    assert_eq!(MPI_Comm_test_inter(universe, &report.intercomm), (Status::MPI_SUCCESS, 1));
    assert_eq!(MPI_Comm_size(universe, &report.intercomm), (Status::MPI_SUCCESS, 2));
    assert_eq!(MPI_Comm_rank(universe, &report.intercomm), (Status::MPI_SUCCESS, 0));
    assert!(may_free(universe, &report.intercomm));
    let mut intercomm = report.intercomm;
    assert_eq!(MPI_Comm_free(universe, &mut intercomm), Status::MPI_SUCCESS);
    assert!(!may_free(universe, &intercomm));
}

#[test]
fn errcodes_fill_the_places_of_the_callers_array() {
    let mut universe = universe();
    let pending = universe.comm_self().spawn_multiple_async(
        Some(vec![empire::mpiexec::spawn_info_of(String::from("a"), Vec::new(), Some("3"))]),
        0,
        Port::new(8201),
    );
    let outcomes = vec![
        LaunchOutcome::Exited { success: false, code: Some(1) },
        LaunchOutcome::Exited { success: true, code: Some(0) },
        LaunchOutcome::Failed(IoFailure::new(IoKind::Other, String::from("denied"))),
    ];
    let report = complete_spawn(&mut universe, pending, outcomes, 1);
    assert_eq!(report.errcodes, vec![Status::MPI_ERR_SPAWN]);
}

#[test]
fn batch_is_given_when_the_arrays_hold_it() {
    let commands = words(&["a", "b"]);
    let argvs = vec![words(&[]), words(&["x"])];
    assert!(batch_is_given(2, &commands, &argvs, &vec![1, 2]));
    assert!(batch_is_given(1, &commands, &argvs, &vec![0]));
    assert!(batch_is_given(0, &commands, &argvs, &Vec::new()));
    assert!(batch_is_given(1, &commands, &argvs, &vec![3, -1]));
    assert!(!batch_is_given(2, &commands, &argvs, &vec![3, -1]));
    assert!(!batch_is_given(2, &commands, &argvs, &vec![-1, 3]));
    assert!(!batch_is_given(3, &commands, &argvs, &vec![1, 1, 1]));
    assert!(!batch_is_given(2, &commands, &argvs, &vec![1]));
    assert!(!batch_is_given(2, &commands, &vec![words(&[])], &vec![1, 1]));
    assert!(batch_is_given(2, &commands, &argvs, &vec![i32::MAX, i32::MAX]));
}

#[test]
fn spawn_of_one_command_is_a_batch_of_one() {
    let runtime = started_runtime();
    let command = String::from("tool");
    let args = words(&["x", "y"]);
    let pending = MPI_Comm_spawn(
        runtime.universe(),
        Some(&command),
        Some(&args),
        2,
        0,
        &runtime.comm_self,
        Port::new(8202),
    );
    assert_eq!(pending.launches.len(), 2);
    for (rank, launch) in pending.launches.iter().enumerate() {
        assert_eq!(launch.command, "tool");
        assert_eq!(launch.args, args);
        assert_eq!(launch.world_rank, rank);
        assert_eq!(launch.world_size, 2);
    }
    assert!(pending.comm.is_intercomm());
}
