//! Communicators and the batch spawn.
//!
//! A [`Comm`] names a process group by a rank and a size. An
//! intra-communicator is one group; an inter-communicator joins two, such as
//! a parent and the children it spawned. A spawn is planned here and settled
//! here; starting the processes and waiting for them is the caller's part.

use crate::error::{Error, IoFailure, IoKind};
use crate::numeral::{decimal, format_usize};
use crate::port::Port;
use vstd::prelude::*;
use vstd::string::*;

verus! {

/// One request of a batch: an executable, its arguments, and how many
/// processes of it to start.
#[derive(Debug, PartialEq, Eq)]
pub struct SpawnCommandInfo {
    command: String,
    args: Vec<String>,
    max_procs: usize,
}

/// What a [`SpawnCommandInfo`] asks for.
pub struct Request {
    pub command: String,
    pub args: Seq<String>,
    pub max_procs: nat,
}

impl View for SpawnCommandInfo {
    type V = Request;

    closed spec fn view(&self) -> Request {
        Request { command: self.command, args: self.args@, max_procs: self.max_procs as nat }
    }
}

impl SpawnCommandInfo {
    /// A request for one process of `command` with the arguments `args`.
    pub fn new(command: String, args: Vec<String>) -> (info: Self)
        ensures
            info@ == (Request { command, args: args@, max_procs: 1 }),
    {
        SpawnCommandInfo { command, args, max_procs: 1 }
    }

    /// Sets how many processes to start and hands the request back for
    /// more settings. A request for none starts none.
    pub fn max_procs(&mut self, max_procs: usize) -> (info: &mut Self)
        ensures
            info@ == (Request { max_procs: max_procs as nat, ..old(self)@ }),
            *final(self) == *final(info),
    {
        self.max_procs = max_procs;
        self
    }

    /// The executable to start.
    pub fn command(&self) -> (command: &String)
        ensures
            *command == self@.command,
    {
        &self.command
    }

    /// The arguments handed to each process.
    pub fn args(&self) -> (args: &Vec<String>)
        ensures
            args@ == self@.args,
    {
        &self.args
    }

    /// How many processes to start.
    pub fn procs(&self) -> (count: usize)
        ensures
            count == self@.max_procs,
    {
        self.max_procs
    }
}

/// The views of a batch of requests, in order.
pub open spec fn requests_of(commands: Seq<SpawnCommandInfo>) -> Seq<Request> {
    Seq::new(commands.len(), |j: int| commands[j]@)
}

/// The number of processes that a batch asks for: the sum of its counts.
pub open spec fn world_size(requests: Seq<Request>) -> nat
    decreases requests.len(),
{
    if requests.len() == 0 {
        0
    } else {
        world_size(requests.drop_last()) + requests.last().max_procs
    }
}

/// The batch flattened: for each world rank, the position of the request that
/// it belongs to. Each request is repeated as often as its count says, and
/// the requests keep their order.
pub open spec fn flattened(requests: Seq<Request>) -> Seq<int>
    decreases requests.len(),
{
    if requests.len() == 0 {
        Seq::empty()
    } else {
        flattened(requests.drop_last()) + Seq::new(
            requests.last().max_procs,
            |i: int| requests.len() - 1,
        )
    }
}

/// One process to start: the executable, its arguments, and the three values
/// by which it learns its place.
#[derive(Debug, PartialEq, Eq)]
pub struct Launch {
    pub command: String,
    pub args: Vec<String>,
    pub world_rank: usize,
    pub world_size: usize,
    pub parent_port: String,
}

/// The name of the environment variable that carries the world rank.
pub open spec fn rank_variable() -> Seq<char> {
    "EMPIRE_COMM_WORLD_RANK"@
}

/// The name of the environment variable that carries the world size.
pub open spec fn size_variable() -> Seq<char> {
    "EMPIRE_COMM_WORLD_SIZE"@
}

/// The name of the environment variable that carries the parent's address.
pub open spec fn parent_port_variable() -> Seq<char> {
    "EMPIRE_COMM_WORLD_PARENT_PORT"@
}

impl Launch {
    /// The launch of world rank `rank` in a world of `size`, for the request
    /// `request`, with the parent reachable at `parent_port`.
    pub open spec fn matches_request(
        self,
        request: Request,
        rank: int,
        size: nat,
        parent_port: Seq<char>,
    ) -> bool {
        &&& self.command == request.command
        &&& self.args@ == request.args
        &&& self.world_rank == rank
        &&& self.world_size == size
        &&& self.parent_port@ == parent_port
    }

    /// The values put into the environment of the process: its world rank,
    /// the world size, both as decimal numerals, and the parent's address.
    pub fn environment(&self) -> (pairs: Vec<(String, String)>)
        ensures
            pairs@.len() == 3,
            pairs@[0].0@ == rank_variable(),
            pairs@[0].1@ == decimal(self.world_rank as nat),
            pairs@[1].0@ == size_variable(),
            pairs@[1].1@ == decimal(self.world_size as nat),
            pairs@[2].0@ == parent_port_variable(),
            pairs@[2].1@ == self.parent_port@,
    {
        let mut pairs: Vec<(String, String)> = Vec::new();
        pairs.push((String::from_str("EMPIRE_COMM_WORLD_RANK"), format_usize(self.world_rank)));
        pairs.push((String::from_str("EMPIRE_COMM_WORLD_SIZE"), format_usize(self.world_size)));
        pairs.push(
            (String::from_str("EMPIRE_COMM_WORLD_PARENT_PORT"), self.parent_port.clone()),
        );
        pairs
    }
}

/// How one launch ended, as the platform reported it.
#[derive(Debug, PartialEq, Eq)]
pub enum LaunchOutcome {
    /// The process ran and exited; `success` and `code` are the platform's
    /// reading of its exit status.
    Exited { success: bool, code: Option<i32> },
    /// The process could not be started, or waiting for it failed.
    Failed(IoFailure),
}

/// What is reported for a launch that ended with `outcome`: success, the
/// missing command, the failure code (-1 when the platform gave none), or the
/// platform's failure.
pub open spec fn settled(launch: Launch, outcome: LaunchOutcome) -> Result<(), Error> {
    match outcome {
        LaunchOutcome::Exited { success, code } => if success {
            Ok(())
        } else {
            Err(
                Error::FailExitCode(
                    match code {
                        Some(code) => code,
                        None => -1i32,
                    },
                ),
            )
        },
        LaunchOutcome::Failed(failure) => if failure.kind == IoKind::NotFound {
            Err(Error::CommandNotFound(launch.command))
        } else {
            Err(Error::IoError(failure))
        },
    }
}

/// Reports how one launch ended. The report depends on this launch and its
/// outcome alone.
pub fn settle(launch: &Launch, outcome: &LaunchOutcome) -> (report: Result<(), Error>)
    ensures
        report == settled(*launch, *outcome),
{
    match outcome {
        LaunchOutcome::Exited { success, code } => {
            if *success {
                Ok(())
            } else {
                let code = match code {
                    Some(code) => *code,
                    None => -1,
                };
                Err(Error::FailExitCode(code))
            }
        },
        LaunchOutcome::Failed(failure) => {
            if failure.kind == IoKind::NotFound {
                Err(Error::CommandNotFound(launch.command.clone()))
            } else {
                Err(Error::IoError(failure.duplicate()))
            }
        },
    }
}

/// What a communicator is.
pub struct CommView {
    pub name: Option<String>,
    pub rank: usize,
    pub size: usize,
    pub is_intercomm: bool,
    pub ports: Seq<Option<Port>>,
    pub children: Seq<Launch>,
}

impl CommView {
    /// The rank lies within the size. An inter-communicator has size two and
    /// two port slots, the first filled and the second empty. An
    /// intra-communicator has one port slot for each rank, and the slot of its
    /// own rank is filled.
    pub open spec fn wf(self) -> bool {
        &&& self.rank < self.size
        &&& forall|i: int|
            0 <= i < self.ports.len() ==> ((#[trigger] self.ports[i]) matches Some(port)
                ==> port.wf())
        &&& if self.is_intercomm {
            &&& self.size == 2
            &&& self.ports.len() == 2
            &&& self.ports[0] is Some
            &&& self.ports[1] is None
        } else {
            &&& self.ports.len() == self.size
            &&& self.ports[self.rank as int] is Some
        }
    }
}

/// The names of the ports in the filled slots of `ports`, in slot order.
pub open spec fn port_names_of(ports: Seq<Option<Port>>) -> Seq<Seq<char>>
    decreases ports.len(),
{
    if ports.len() == 0 {
        Seq::empty()
    } else {
        let before = port_names_of(ports.drop_last());
        match ports.last() {
            Some(port) => before.push(port.name_text()),
            None => before,
        }
    }
}

/// A communicator: a process group seen from one of its members.
#[derive(Debug)]
pub struct Comm {
    name: Option<String>,
    rank: usize,
    size: usize,
    is_intercomm: bool,
    ports: Vec<Option<Port>>,
    child_commands: Vec<Launch>,
}

impl View for Comm {
    type V = CommView;

    closed spec fn view(&self) -> CommView {
        CommView {
            name: self.name,
            rank: self.rank,
            size: self.size,
            is_intercomm: self.is_intercomm,
            ports: self.ports@,
            children: self.child_commands@,
        }
    }
}

/// A new inter-communicator and the outcome of each launch, by world rank.
#[derive(Debug)]
pub struct SpawnMultipleResult {
    pub comm: Comm,
    pub results: Vec<Result<(), Error>>,
}

/// A spawn that has been planned and not yet settled: the new
/// inter-communicator and the processes to start, by world rank.
#[derive(Debug)]
pub struct PendingSpawn {
    pub comm: Comm,
    pub launches: Vec<Launch>,
}

impl Comm {
    /// The intra-communicator of `size` members as member `rank` sees it.
    /// It has one port slot for each member; only the slot of `rank` is
    /// filled, with `port`, which the caller has opened.
    pub fn intracomm(rank: usize, size: usize, port: Port) -> (comm: Self)
        requires
            rank < size,
            port.wf(),
        ensures
            comm@.wf(),
            comm@.name is None,
            comm@.rank == rank,
            comm@.size == size,
            !comm@.is_intercomm,
            comm@.ports.len() == size,
            comm@.ports[rank as int] == Some(port),
            forall|i: int| 0 <= i < size && i != rank ==> (#[trigger] comm@.ports[i]) is None,
            comm@.children.len() == 0,
    {
        let mut ports: Vec<Option<Port>> = Vec::new();
        let mut filled: usize = 0;
        while filled < size
            invariant
                filled <= size,
                ports@.len() == filled,
                forall|i: int| 0 <= i < filled ==> (#[trigger] ports@[i]) is None,
            decreases size - filled,
        {
            ports.push(None);
            filled = filled + 1;
        }
        ports.set(rank, Some(port));
        Comm {
            name: None,
            rank,
            size,
            is_intercomm: false,
            ports,
            child_commands: Vec::new(),
        }
    }

    /// The inter-communicator as member `rank` of its two sees it. The first
    /// port slot holds `port`, which the caller has opened; the second, the
    /// peer group's, is empty.
    pub fn intercomm(rank: usize, port: Port) -> (comm: Self)
        requires
            rank < 2,
            port.wf(),
        ensures
            comm@.wf(),
            comm@.name is None,
            comm@.rank == rank,
            comm@.size == 2,
            comm@.is_intercomm,
            comm@.ports == seq![Some(port), None],
            comm@.children.len() == 0,
    {
        let mut ports: Vec<Option<Port>> = Vec::new();
        ports.push(Some(port));
        ports.push(None);
        assert(ports@ =~= seq![Some(port), None]);
        Comm {
            name: None,
            rank,
            size: 2,
            is_intercomm: true,
            ports,
            child_commands: Vec::new(),
        }
    }

    /// The display name, if one was set.
    pub fn name(&self) -> (name: Option<&str>)
        ensures
            match name {
                Some(text) => self@.name matches Some(held) && text@ == held@,
                None => self@.name is None,
            },
    {
        match &self.name {
            Some(held) => Some(held.as_str()),
            None => None,
        }
    }

    /// Sets the display name and nothing else.
    pub fn set_name(&mut self, name: String)
        ensures
            final(self)@ == (CommView { name: Some(name), ..old(self)@ }),
    {
        self.name = Some(name);
    }

    /// This member's rank.
    pub fn rank(&self) -> (rank: usize)
        ensures
            rank == self@.rank,
    {
        self.rank
    }

    /// The number of members.
    pub fn size(&self) -> (size: usize)
        ensures
            size == self@.size,
    {
        self.size
    }

    /// Whether this is an inter-communicator.
    pub fn is_intercomm(&self) -> (inter: bool)
        ensures
            inter == self@.is_intercomm,
    {
        self.is_intercomm
    }

    /// The number of port slots.
    pub fn port_count(&self) -> (count: usize)
        ensures
            count == self@.ports.len(),
    {
        self.ports.len()
    }

    /// The port in slot `idx`. An empty slot is no failure.
    pub fn port(&self, idx: usize) -> (port: &Option<Port>)
        requires
            idx < self@.ports.len(),
        ensures
            *port == self@.ports[idx as int],
    {
        &self.ports[idx]
    }

    /// The names of the ports that this communicator owns, in slot order.
    /// They are the ports to close when the communicator is freed.
    pub fn port_names(&self) -> (names: Vec<String>)
        ensures
            names@.len() == port_names_of(self@.ports).len(),
            forall|k: int| 0 <= k < names@.len() ==> (#[trigger] names@[k])@ == port_names_of(
                self@.ports,
            )[k],
    {
        let mut names: Vec<String> = Vec::new();
        let mut idx: usize = 0;
        proof {
            assert(self.ports@.take(0) =~= Seq::<Option<Port>>::empty());
        }
        while idx < self.ports.len()
            invariant
                idx <= self.ports@.len(),
                names@.len() == port_names_of(self.ports@.take(idx as int)).len(),
                forall|k: int| 0 <= k < names@.len() ==> (#[trigger] names@[k])@ == port_names_of(
                    self.ports@.take(idx as int),
                )[k],
            decreases self.ports@.len() - idx,
        {
            proof {
                assert(self.ports@.take(idx + 1).drop_last() =~= self.ports@.take(idx as int));
                assert(self.ports@.take(idx + 1).last() == self.ports@[idx as int]);
            }
            match &self.ports[idx] {
                Some(port) => {
                    names.push(String::from_str(port.name()));
                },
                None => {},
            }
            idx = idx + 1;
        }
        proof {
            assert(self.ports@.take(idx as int) =~= self.ports@);
        }
        names
    }

    /// Records the processes that were started for this communicator.
    pub fn attach_children(&mut self, commands: Vec<Launch>)
        ensures
            final(self)@ == (CommView { children: commands@, ..old(self)@ }),
    {
        self.child_commands = commands;
    }

    /// Plans a batch spawn from the one member of this communicator.
    ///
    /// Makes the parent's end of a new inter-communicator around `port`,
    /// which the caller has opened, and lists the processes to start: each
    /// request repeated as often as its count says, in the order of the
    /// batch. A launch's world rank is its place in that list, the world size
    /// is the length of the list, and every launch is told the name of `port`.
    pub fn spawn_multiple_async(
        &self,
        commands: Option<Vec<SpawnCommandInfo>>,
        root: usize,
        port: Port,
    ) -> (pending: PendingSpawn)
        requires
            root == self@.rank,
            self@.size == 1,
            commands is Some,
            world_size(requests_of(commands->0@)) <= usize::MAX,
            port.wf(),
        ensures
            pending.comm@.wf(),
            pending.comm@.is_intercomm,
            pending.comm@.rank == 0,
            pending.comm@.size == 2,
            pending.comm@.name is None,
            pending.comm@.ports == seq![Some(port), None],
            pending.comm@.children.len() == 0,
            is_launch_list(pending.launches@, requests_of(commands->0@), port.name_text()),
    {
        let commands = commands.unwrap();
        let launches = plan_launches(&commands, port.name());
        let comm = Comm::intercomm(0, port);
        PendingSpawn { comm, launches }
    }

    /// Plans a batch spawn as [`Comm::spawn_multiple_async`] does and settles
    /// it at once with the outcomes that the caller has for its launches.
    pub fn spawn_multiple(
        &self,
        commands: Option<Vec<SpawnCommandInfo>>,
        root: usize,
        port: Port,
        outcomes: Vec<LaunchOutcome>,
    ) -> (result: SpawnMultipleResult)
        requires
            root == self@.rank,
            self@.size == 1,
            commands is Some,
            world_size(requests_of(commands->0@)) <= usize::MAX,
            outcomes@.len() == world_size(requests_of(commands->0@)),
            port.wf(),
        ensures
            result.comm@.wf(),
            result.comm@.is_intercomm,
            result.comm@.rank == 0,
            result.comm@.size == 2,
            result.comm@.name is None,
            result.comm@.ports == seq![Some(port), None],
            result.comm@.children.len() == 0,
            exists|launches: Seq<Launch>|
                #![trigger is_launch_list(launches, requests_of(commands->0@), port.name_text())]
                is_launch_list(launches, requests_of(commands->0@), port.name_text())
                    && are_reports(result.results@, launches, outcomes@),
    {
        let pending = self.spawn_multiple_async(commands, root, port);
        pending.complete(outcomes)
    }

    /// [`Comm::spawn_multiple_async`] for the member that supplies the batch.
    pub fn spawn_multiple_root_async(
        &self,
        commands: Vec<SpawnCommandInfo>,
        root: usize,
        port: Port,
    ) -> (pending: PendingSpawn)
        requires
            root == self@.rank,
            self@.size == 1,
            world_size(requests_of(commands@)) <= usize::MAX,
            port.wf(),
        ensures
            pending.comm@.wf(),
            pending.comm@.is_intercomm,
            pending.comm@.rank == 0,
            pending.comm@.size == 2,
            pending.comm@.name is None,
            pending.comm@.ports == seq![Some(port), None],
            pending.comm@.children.len() == 0,
            is_launch_list(pending.launches@, requests_of(commands@), port.name_text()),
    {
        self.spawn_multiple_async(Some(commands), root, port)
    }

    /// [`Comm::spawn_multiple`] for the member that supplies the batch.
    pub fn spawn_multiple_root(
        &self,
        commands: Vec<SpawnCommandInfo>,
        root: usize,
        port: Port,
        outcomes: Vec<LaunchOutcome>,
    ) -> (result: SpawnMultipleResult)
        requires
            root == self@.rank,
            self@.size == 1,
            world_size(requests_of(commands@)) <= usize::MAX,
            outcomes@.len() == world_size(requests_of(commands@)),
            port.wf(),
        ensures
            result.comm@.wf(),
            result.comm@.is_intercomm,
            result.comm@.rank == 0,
            result.comm@.size == 2,
            result.comm@.name is None,
            result.comm@.ports == seq![Some(port), None],
            result.comm@.children.len() == 0,
            exists|launches: Seq<Launch>|
                #![trigger is_launch_list(launches, requests_of(commands@), port.name_text())]
                is_launch_list(launches, requests_of(commands@), port.name_text()) && are_reports(
                    result.results@,
                    launches,
                    outcomes@,
                ),
    {
        self.spawn_multiple(Some(commands), root, port, outcomes)
    }
}

/// `launches` is the launch list of the batch `requests` with the parent at
/// `parent_port`: one launch for each world rank, in flattened order.
pub open spec fn is_launch_list(
    launches: Seq<Launch>,
    requests: Seq<Request>,
    parent_port: Seq<char>,
) -> bool {
    &&& launches.len() == world_size(requests)
    &&& launches.len() == flattened(requests).len()
    &&& forall|k: int|
        0 <= k < launches.len() ==> (#[trigger] launches[k]).matches_request(
            requests[flattened(requests)[k]],
            k,
            world_size(requests),
            parent_port,
        )
}

/// `reports` holds, place for place, what is reported for `launches` that
/// ended with `outcomes`.
pub open spec fn are_reports(
    reports: Seq<Result<(), Error>>,
    launches: Seq<Launch>,
    outcomes: Seq<LaunchOutcome>,
) -> bool {
    &&& reports.len() == launches.len()
    &&& forall|k: int|
        0 <= k < reports.len() ==> #[trigger] reports[k] == settled(launches[k], outcomes[k])
}

/// In a launch list every launch carries its own place as world rank and
/// the length of the list as world size, and is told the parent's address.
pub proof fn law_world_ranks_are_positions(
    launches: Seq<Launch>,
    requests: Seq<Request>,
    parent_port: Seq<char>,
    k: int,
)
    requires
        is_launch_list(launches, requests, parent_port),
        0 <= k < launches.len(),
    ensures
        launches[k].world_rank == k,
        launches[k].world_size == launches.len(),
        launches[k].world_size == world_size(requests),
        launches[k].parent_port@ == parent_port,
        0 <= flattened(requests)[k] < requests.len(),
        launches[k].command == requests[flattened(requests)[k]].command,
        launches[k].args@ == requests[flattened(requests)[k]].args,
{
    law_flattened_places(requests);
}

/// The report of a launch depends on that launch and its outcome alone:
/// whatever the other launches of a batch come to, it stays the same.
pub proof fn law_reports_are_independent(
    launches: Seq<Launch>,
    outcomes: Seq<LaunchOutcome>,
    others: Seq<LaunchOutcome>,
    reports: Seq<Result<(), Error>>,
    other_reports: Seq<Result<(), Error>>,
    k: int,
)
    requires
        are_reports(reports, launches, outcomes),
        are_reports(other_reports, launches, others),
        0 <= k < launches.len(),
        outcomes[k] == others[k],
    ensures
        reports[k] == other_reports[k],
{
}

/// The flattened batch has one place for each process asked for, and every
/// place names a request of the batch that asks for at least one process.
pub proof fn law_flattened_places(requests: Seq<Request>)
    ensures
        flattened(requests).len() == world_size(requests),
        forall|k: int|
            0 <= k < flattened(requests).len() ==> 0 <= (#[trigger] flattened(requests)[k])
                < requests.len() && requests[flattened(requests)[k]].max_procs > 0,
    decreases requests.len(),
{
    if requests.len() > 0 {
        let shorter = requests.drop_last();
        law_flattened_places(shorter);
        assert forall|k: int| 0 <= k < flattened(requests).len() implies 0 <= (
        #[trigger] flattened(requests)[k]) < requests.len() && requests[flattened(
            requests,
        )[k]].max_procs > 0 by {
            if k < flattened(shorter).len() {
                assert(flattened(requests)[k] == flattened(shorter)[k]);
                assert(requests[flattened(shorter)[k]] == shorter[flattened(shorter)[k]]);
            }
        }
    }
}

/// The flattened batch keeps the order of the requests: a later world rank
/// never belongs to an earlier request.
pub proof fn law_flattened_keeps_order(requests: Seq<Request>, j: int, k: int)
    requires
        0 <= j <= k < flattened(requests).len(),
    ensures
        flattened(requests)[j] <= flattened(requests)[k],
    decreases requests.len(),
{
    if requests.len() > 0 {
        let shorter = requests.drop_last();
        law_flattened_places(shorter);
        if k < flattened(shorter).len() {
            law_flattened_keeps_order(shorter, j, k);
        }
    }
}

/// The number of processes that the first `n` requests of a batch ask for
/// grows with `n`.
pub proof fn lemma_world_size_grows(requests: Seq<Request>, n: int)
    requires
        0 <= n <= requests.len(),
    ensures
        world_size(requests.take(n)) <= world_size(requests),
    decreases requests.len() - n,
{
    if n == requests.len() {
        assert(requests.take(n) =~= requests);
    } else {
        lemma_world_size_grows(requests.drop_last(), n);
        assert(requests.drop_last().take(n) =~= requests.take(n));
    }
}

/// The number of processes that the batch asks for, or nothing when the sum
/// is beyond what a `usize` holds.
pub fn world_size_of(commands: &Vec<SpawnCommandInfo>) -> (total: Option<usize>)
    ensures
        match total {
            Some(sum) => sum == world_size(requests_of(commands@)),
            None => world_size(requests_of(commands@)) > usize::MAX,
        },
{
    let ghost requests = requests_of(commands@);
    let mut sum: usize = 0;
    let mut j: usize = 0;
    while j < commands.len()
        invariant
            j <= commands@.len(),
            requests == requests_of(commands@),
            sum == world_size(requests.take(j as int)),
        decreases commands@.len() - j,
    {
        proof {
            assert(requests.take(j + 1).drop_last() =~= requests.take(j as int));
            assert(requests.take(j + 1).last() == commands@[j as int]@);
        }
        match sum.checked_add(commands[j].max_procs) {
            Some(more) => {
                sum = more;
            },
            None => {
                proof {
                    lemma_world_size_grows(requests, j + 1);
                }
                return None;
            },
        }
        j = j + 1;
    }
    assert(requests.take(j as int) =~= requests);
    Some(sum)
}

/// Lists the processes to start for a batch, by world rank.
fn plan_launches(commands: &Vec<SpawnCommandInfo>, parent_port: &str) -> (launches: Vec<Launch>)
    requires
        world_size(requests_of(commands@)) <= usize::MAX,
    ensures
        is_launch_list(launches@, requests_of(commands@), parent_port@),
{
    let ghost requests = requests_of(commands@);
    let total = world_size_of(commands).unwrap();
    let mut launches: Vec<Launch> = Vec::new();
    let mut j: usize = 0;
    proof {
        law_flattened_places(requests);
        assert(requests.take(0) =~= Seq::<Request>::empty());
    }
    while j < commands.len()
        invariant
            j <= commands@.len(),
            requests == requests_of(commands@),
            total == world_size(requests),
            launches@.len() == world_size(requests.take(j as int)),
            launches@.len() == flattened(requests.take(j as int)).len(),
            forall|k: int|
                0 <= k < launches@.len() ==> (#[trigger] launches@[k]).matches_request(
                    requests[flattened(requests.take(j as int))[k]],
                    k,
                    total as nat,
                    parent_port@,
                ),
        decreases commands@.len() - j,
    {
        let command = &commands[j];
        let ghost done = requests.take(j as int);
        let ghost next = requests.take(j + 1);
        let ghost base = launches@.len();
        proof {
            assert(next.drop_last() =~= done);
            assert(next.last() == command@);
            lemma_world_size_grows(requests, j + 1);
        }
        let mut i: usize = 0;
        while i < command.max_procs
            invariant
                i <= command.max_procs,
                j < commands@.len(),
                requests == requests_of(commands@),
                *command == commands@[j as int],
                done == requests.take(j as int),
                next == requests.take(j + 1),
                next.drop_last() == done,
                next.last() == command@,
                total == world_size(requests),
                world_size(next) <= total,
                base == world_size(done),
                base == flattened(done).len(),
                launches@.len() == base + i,
                forall|k: int|
                    0 <= k < launches@.len() ==> (#[trigger] launches@[k]).matches_request(
                        requests[flattened(next)[k]],
                        k,
                        total as nat,
                        parent_port@,
                    ),
            decreases command.max_procs - i,
        {
            let world_rank = launches.len();
            let launch = Launch {
                command: command.command.clone(),
                args: clone_texts(&command.args),
                world_rank,
                world_size: total,
                parent_port: String::from_str(parent_port),
            };
            proof {
                assert(flattened(next)[world_rank as int] == j);
                assert(requests[j as int] == command@);
            }
            launches.push(launch);
            i = i + 1;
        }
        j = j + 1;
    }
    proof {
        assert(requests.take(j as int) =~= requests);
    }
    launches
}

/// A copy of a list of texts.
pub fn clone_texts(texts: &Vec<String>) -> (copy: Vec<String>)
    ensures
        copy@ == texts@,
{
    let mut copy: Vec<String> = Vec::new();
    let mut i: usize = 0;
    while i < texts.len()
        invariant
            i <= texts@.len(),
            copy@ == texts@.take(i as int),
        decreases texts@.len() - i,
    {
        copy.push(texts[i].clone());
        assert(copy@ =~= texts@.take(i + 1));
        i = i + 1;
    }
    assert(texts@.take(i as int) =~= texts@);
    copy
}

impl PendingSpawn {
    /// Settles the spawn: `outcomes` tells, by world rank, how each launch
    /// ended, and the result reports each on its own, together with the new
    /// inter-communicator. A launch that failed changes no other report.
    pub fn complete(self, outcomes: Vec<LaunchOutcome>) -> (result: SpawnMultipleResult)
        requires
            outcomes@.len() == self.launches@.len(),
        ensures
            result.comm == self.comm,
            are_reports(result.results@, self.launches@, outcomes@),
    {
        let PendingSpawn { comm, launches } = self;
        let mut results: Vec<Result<(), Error>> = Vec::new();
        let mut k: usize = 0;
        while k < launches.len()
            invariant
                k <= launches@.len(),
                outcomes@.len() == launches@.len(),
                results@.len() == k,
                forall|r: int|
                    0 <= r < k ==> #[trigger] results@[r] == settled(launches@[r], outcomes@[r]),
            decreases launches@.len() - k,
        {
            results.push(settle(&launches[k], &outcomes[k]));
            k = k + 1;
        }
        SpawnMultipleResult { comm, results }
    }
}

} // verus!
