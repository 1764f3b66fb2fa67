//! The spawn operations: from the arrays that a foreign caller gives to the
//! batch that the runtime plans, and from the outcomes of the launches to the
//! handle and the statuses that the caller gets back.

use crate::comm::{
    are_reports, clone_texts, is_launch_list, requests_of, world_size, Comm, LaunchOutcome,
    PendingSpawn, Request, SpawnCommandInfo, SpawnMultipleResult,
};
use crate::error;
use crate::mpi::convert::size_of_c_int;
use crate::mpi::handles::{CommHandle, MPI_Comm};
use crate::mpi::status::{result_to_mpi_error, status_of_result, Error};
use crate::port::Port;
use crate::universe::Universe;
use vstd::prelude::*;

verus! {

/// The batch that the first `count` entries of the three arrays describe:
/// entry by entry a command, its arguments and its count of processes.
pub open spec fn batch_of(
    count: nat,
    commands: Seq<String>,
    argvs: Seq<Vec<String>>,
    maxprocs: Seq<i32>,
) -> Seq<Request> {
    Seq::new(
        count,
        |j: int|
            Request { command: commands[j], args: argvs[j]@, max_procs: maxprocs[j] as nat },
    )
}

/// The arrays hold `count` entries each, and no count of processes is negative.
pub open spec fn batch_given(
    count: nat,
    commands: Seq<String>,
    argvs: Seq<Vec<String>>,
    maxprocs: Seq<i32>,
) -> bool {
    &&& commands.len() >= count
    &&& argvs.len() >= count
    &&& maxprocs.len() >= count
    &&& forall|j: int| 0 <= j < count ==> #[trigger] maxprocs[j] >= 0
}

/// The number of processes that the first `n` entries of the arrays ask for
/// grows with `n`.
proof fn lemma_batch_prefix(
    count: nat,
    n: nat,
    commands: Seq<String>,
    argvs: Seq<Vec<String>>,
    maxprocs: Seq<i32>,
)
    requires
        n <= count,
    ensures
        batch_of(count, commands, argvs, maxprocs).take(n as int) == batch_of(
            n,
            commands,
            argvs,
            maxprocs,
        ),
        world_size(batch_of(n, commands, argvs, maxprocs)) <= world_size(
            batch_of(count, commands, argvs, maxprocs),
        ),
{
    let whole = batch_of(count, commands, argvs, maxprocs);
    assert(whole.take(n as int) =~= batch_of(n, commands, argvs, maxprocs));
    crate::comm::lemma_world_size_grows(whole, n as int);
}

/// Whether the caller's arrays describe a batch of `count` commands that
/// can be planned: each array holds `count` entries, no count of processes
/// is negative, and their sum can be counted.
pub fn batch_is_given(
    count: usize,
    commands: &Vec<String>,
    argvs: &Vec<Vec<String>>,
    maxprocs: &Vec<i32>,
) -> (given: bool)
    ensures
        given == (batch_given(count as nat, commands@, argvs@, maxprocs@) && world_size(
            batch_of(count as nat, commands@, argvs@, maxprocs@),
        ) <= usize::MAX),
{
    if commands.len() < count || argvs.len() < count || maxprocs.len() < count {
        return false;
    }
    let mut sum: usize = 0;
    let mut j: usize = 0;
    while j < count
        invariant
            j <= count,
            commands@.len() >= count,
            argvs@.len() >= count,
            maxprocs@.len() >= count,
            forall|k: int| 0 <= k < j ==> #[trigger] maxprocs@[k] >= 0,
            sum == world_size(batch_of(j as nat, commands@, argvs@, maxprocs@)),
        decreases count - j,
    {
        let procs = match size_of_c_int(maxprocs[j]) {
            Some(procs) => procs,
            None => {
                return false;
            },
        };
        proof {
            let next = batch_of((j + 1) as nat, commands@, argvs@, maxprocs@);
            assert(next.drop_last() =~= batch_of(j as nat, commands@, argvs@, maxprocs@));
            assert(next.last().max_procs == procs);
            lemma_batch_prefix(count as nat, (j + 1) as nat, commands@, argvs@, maxprocs@);
        }
        match sum.checked_add(procs) {
            Some(more) => {
                sum = more;
            },
            None => {
                return false;
            },
        }
        j = j + 1;
    }
    true
}

/// Builds the batch from the caller's arrays.
fn requests_from_arrays(
    count: usize,
    commands: &Vec<String>,
    argvs: &Vec<Vec<String>>,
    maxprocs: &Vec<i32>,
) -> (batch: Vec<SpawnCommandInfo>)
    requires
        batch_given(count as nat, commands@, argvs@, maxprocs@),
    ensures
        requests_of(batch@) == batch_of(count as nat, commands@, argvs@, maxprocs@),
{
    let mut batch: Vec<SpawnCommandInfo> = Vec::new();
    let mut j: usize = 0;
    while j < count
        invariant
            j <= count,
            batch_given(count as nat, commands@, argvs@, maxprocs@),
            batch@.len() == j,
            forall|k: int|
                0 <= k < j ==> (#[trigger] batch@[k])@ == (Request {
                    command: commands@[k],
                    args: argvs@[k]@,
                    max_procs: maxprocs@[k] as nat,
                }),
        decreases count - j,
    {
        let mut command = SpawnCommandInfo::new(commands[j].clone(), clone_texts(&argvs[j]));
        assert(maxprocs@[j as int] >= 0);
        command.max_procs(size_of_c_int(maxprocs[j]).unwrap());
        batch.push(command);
        j = j + 1;
    }
    assert(requests_of(batch@) =~= batch_of(count as nat, commands@, argvs@, maxprocs@));
    batch
}

/// Plans the spawn of the batch in the caller's arrays from the one
/// member of `comm`, around `port`, which the caller has opened.
pub fn mpi_comm_spawn_multiple_impl(
    count: usize,
    commands: Option<&Vec<String>>,
    argvs: Option<&Vec<Vec<String>>>,
    array_of_maxprocs: Option<&Vec<i32>>,
    root: usize,
    comm: &Comm,
    port: Port,
) -> (pending: PendingSpawn)
    requires
        comm@.rank == root,
        comm@.size == 1,
        commands is Some,
        argvs is Some,
        array_of_maxprocs is Some,
        batch_given(count as nat, commands->0@, argvs->0@, array_of_maxprocs->0@),
        world_size(batch_of(count as nat, commands->0@, argvs->0@, array_of_maxprocs->0@))
            <= usize::MAX,
        port.wf(),
    ensures
        pending.comm@.wf(),
        pending.comm@.is_intercomm,
        pending.comm@.rank == 0,
        pending.comm@.size == 2,
        pending.comm@.ports == seq![Some(port), None],
        is_launch_list(
            pending.launches@,
            batch_of(count as nat, commands->0@, argvs->0@, array_of_maxprocs->0@),
            port.name_text(),
        ),
{
    let batch = requests_from_arrays(
        count,
        commands.unwrap(),
        argvs.unwrap(),
        array_of_maxprocs.unwrap(),
    );
    comm.spawn_multiple_async(Some(batch), root, port)
}

/// Plans the spawn of a batch of `count` commands from the communicator of
/// `comm`, whose one member is `root`.
#[allow(non_snake_case)]
pub fn MPI_Comm_spawn_multiple(
    universe: &Universe,
    count: i32,
    array_of_commands: Option<&Vec<String>>,
    array_of_argv: Option<&Vec<Vec<String>>>,
    array_of_maxprocs: Option<&Vec<i32>>,
    root: i32,
    comm: &MPI_Comm,
    port: Port,
) -> (pending: PendingSpawn)
    requires
        universe.wf(),
        count >= 0,
        root >= 0,
        comm.handle matches Some(handle) && handle.resolves(universe),
        comm.handle->0.target(universe)->0@.rank == root,
        comm.handle->0.target(universe)->0@.size == 1,
        array_of_commands is Some,
        array_of_argv is Some,
        array_of_maxprocs is Some,
        batch_given(
            count as nat,
            array_of_commands->0@,
            array_of_argv->0@,
            array_of_maxprocs->0@,
        ),
        world_size(
            batch_of(count as nat, array_of_commands->0@, array_of_argv->0@, array_of_maxprocs->0@),
        ) <= usize::MAX,
        port.wf(),
    ensures
        pending.comm@.wf(),
        pending.comm@.is_intercomm,
        pending.comm@.rank == 0,
        pending.comm@.size == 2,
        pending.comm@.ports == seq![Some(port), None],
        is_launch_list(
            pending.launches@,
            batch_of(
                count as nat,
                array_of_commands->0@,
                array_of_argv->0@,
                array_of_maxprocs->0@,
            ),
            port.name_text(),
        ),
{
    let count = size_of_c_int(count).unwrap();
    let root = size_of_c_int(root).unwrap();
    let held = comm.get(universe);
    mpi_comm_spawn_multiple_impl(
        count,
        array_of_commands,
        array_of_argv,
        array_of_maxprocs,
        root,
        held,
        port,
    )
}

/// Plans the spawn of `maxprocs` processes of one command from the
/// communicator of `comm`, whose one member is `root`.
#[allow(non_snake_case)]
pub fn MPI_Comm_spawn(
    universe: &Universe,
    command: Option<&String>,
    args: Option<&Vec<String>>,
    maxprocs: i32,
    root: i32,
    comm: &MPI_Comm,
    port: Port,
) -> (pending: PendingSpawn)
    requires
        universe.wf(),
        root >= 0,
        maxprocs >= 0,
        comm.handle matches Some(handle) && handle.resolves(universe),
        comm.handle->0.target(universe)->0@.rank == root,
        comm.handle->0.target(universe)->0@.size == 1,
        command is Some,
        args is Some,
        port.wf(),
    ensures
        pending.comm@.wf(),
        pending.comm@.is_intercomm,
        pending.comm@.rank == 0,
        pending.comm@.size == 2,
        pending.comm@.ports == seq![Some(port), None],
        is_launch_list(
            pending.launches@,
            seq![Request { command: *command->0, args: args->0@, max_procs: maxprocs as nat }],
            port.name_text(),
        ),
{
    let mut commands: Vec<String> = Vec::new();
    commands.push(command.unwrap().clone());
    let mut argvs: Vec<Vec<String>> = Vec::new();
    argvs.push(clone_texts(args.unwrap()));
    let mut counts: Vec<i32> = Vec::new();
    counts.push(maxprocs);
    proof {
        let batch = batch_of(1, commands@, argvs@, counts@);
        let single = seq![
            Request { command: *command->0, args: args->0@, max_procs: maxprocs as nat },
        ];
        assert(batch =~= single);
        assert(batch.drop_last() =~= Seq::<Request>::empty());
        assert(world_size(batch.drop_last()) == 0);
        assert(world_size(batch) == maxprocs);
    }
    MPI_Comm_spawn_multiple(
        universe,
        1,
        Some(&commands),
        Some(&argvs),
        Some(&counts),
        root,
        comm,
        port,
    )
}

/// What the caller of a spawn gets back.
pub struct SpawnReport {
    /// The status of the call as a whole.
    pub status: Error,
    /// The handle to the new inter-communicator, which the caller owns.
    pub intercomm: MPI_Comm,
    /// The status of each launch, for the caller's array.
    pub errcodes: Vec<Error>,
}

/// The statuses that go into a caller's array of `count` places for the
/// reports `results`: one for each place that has a report.
pub open spec fn errcodes_of(count: nat, results: Seq<Result<(), error::Error>>) -> Seq<Error> {
    Seq::new(
        if count < results.len() {
            count
        } else {
            results.len()
        },
        |k: int| status_of_result(results[k]),
    )
}

/// Settles a planned spawn with the outcomes of its launches. The new
/// inter-communicator is registered in `universe`, and the caller gets a
/// handle that owns it. A launch that failed shows in its status only: the
/// call itself succeeds.
pub fn complete_spawn(
    universe: &mut Universe,
    pending: PendingSpawn,
    outcomes: Vec<LaunchOutcome>,
    count: usize,
) -> (report: SpawnReport)
    requires
        old(universe).wf(),
        old(universe).has_room(),
        pending.comm@.wf(),
        outcomes@.len() == pending.launches@.len(),
    ensures
        report.status == Error::MPI_SUCCESS,
        final(universe).wf(),
        final(universe).comms() == old(universe).comms().track(pending.comm),
        final(universe).ports() == old(universe).ports(),
        report.intercomm.handle matches Some(CommHandle::UserComm(registration))
            && registration@ == old(universe).comms().next_ticket() && final(universe).comm(
            registration@,
        ) == Some(pending.comm),
        report.intercomm.handle->0.freeable(final(universe)),
        exists|results: Seq<Result<(), error::Error>>|
            #![trigger are_reports(results, pending.launches@, outcomes@)]
            are_reports(results, pending.launches@, outcomes@) && report.errcodes@ == errcodes_of(
                count as nat,
                results,
            ),
{
    let ghost launches = pending.launches@;
    let SpawnMultipleResult { comm, results } = pending.complete(outcomes);
    let mut errcodes: Vec<Error> = Vec::new();
    let mut k: usize = 0;
    while k < count && k < results.len()
        invariant
            k <= count,
            k <= results@.len(),
            errcodes@.len() == k,
            forall|r: int| 0 <= r < k ==> #[trigger] errcodes@[r] == status_of_result(results@[r]),
        decreases results@.len() - k,
    {
        errcodes.push(result_to_mpi_error(&results[k]));
        k = k + 1;
    }
    assert(errcodes@ =~= errcodes_of(count as nat, results@));
    let registration = universe.register_comm(comm);
    SpawnReport {
        status: Error::MPI_SUCCESS,
        intercomm: MPI_Comm::new(CommHandle::UserComm(registration)),
        errcodes,
    }
}

} // verus!
