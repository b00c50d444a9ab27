//! The command registry and the dispatch of a command line through it.
use vstd::prelude::*;

use crate::bindings::ArgBindings;
use crate::command::{strs, Command, RegistrationError};
use crate::message::error_text;
use crate::text::{command_line, parse_command_line};
use crate::validate::{ArgError, ArgValidator, PlayerDirectory, PlayerInfo};

verus! {

/// One handler call: the path of child indices from the registry down to the
/// command, and the arguments that its handler reads.
pub type StepView = (Seq<usize>, Seq<Seq<char>>);

/// The outcome of checking one binding against the arguments.
pub open spec fn position_verdict(
    b: (u32, ArgValidator),
    args: Seq<Seq<char>>,
    players: Map<i32, PlayerInfo>,
) -> Result<(), ArgError> {
    if b.0 >= args.len() {
        Err(ArgError::MissingArgument { kind: b.1.spec_kind(), position: b.0 as usize })
    } else {
        b.1.verdict(args[b.0 as int], players)
    }
}

/// The first failure among the bindings, taken in order (ascending position).
pub open spec fn prevalidation(
    bs: Seq<(u32, ArgValidator)>,
    args: Seq<Seq<char>>,
    players: Map<i32, PlayerInfo>,
) -> Result<(), ArgError>
    decreases bs.len(),
{
    if bs.len() == 0 {
        Ok(())
    } else {
        match position_verdict(bs[0], args, players) {
            Err(e) => Err(e),
            Ok(()) => prevalidation(bs.drop_first(), args, players),
        }
    }
}

/// `j` is the first command of `s` named `id`.
pub open spec fn is_first_named<H>(s: Seq<Command<H>>, id: Seq<char>, j: int) -> bool {
    &&& 0 <= j < s.len()
    &&& s[j].identifier@ == id
    &&& forall|k: int| 0 <= k < j ==> s[k].identifier@ != id
}

/// The index of the first command of `s` named `id`.
pub open spec fn find_named<H>(s: Seq<Command<H>>, id: Seq<char>) -> Option<int> {
    if exists|j: int| is_first_named(s, id, j) {
        Some(choose|j: int| is_first_named(s, id, j))
    } else {
        None
    }
}

/// The handler calls and the reported failure, if any, of dispatching `args`
/// to `cmd`, reached along `path`: validate every bound position, call the
/// handler if there is one, then descend into the subcommand that the first
/// argument names with the arguments after it.
pub open spec fn dispatch_node<H>(
    cmd: Command<H>,
    path: Seq<usize>,
    args: Seq<Seq<char>>,
    players: Map<i32, PlayerInfo>,
) -> (Seq<StepView>, Option<ArgError>)
    decreases args.len(),
{
    match prevalidation(cmd.validators@, args, players) {
        Err(e) => (seq![], Some(e)),
        Ok(()) => {
            let here: Seq<StepView> = if cmd.handler is Some {
                seq![(path, args)]
            } else {
                seq![]
            };
            if args.len() == 0 {
                (here, None)
            } else {
                match find_named(cmd.subcommands@, args[0]) {
                    None => (here, None),
                    Some(j) => {
                        let below = dispatch_node(
                            cmd.subcommands@[j],
                            path.push(j as usize),
                            args.drop_first(),
                            players,
                        );
                        (here + below.0, below.1)
                    },
                }
            }
        },
    }
}

/// Dispatch of a whole line: a line without the marker, or whose identifier
/// names no registered command, calls nothing and reports nothing.
pub open spec fn dispatch<H>(
    commands: Seq<Command<H>>,
    line: Seq<char>,
    players: Map<i32, PlayerInfo>,
) -> (Seq<StepView>, Option<ArgError>) {
    match command_line(line) {
        None => (seq![], None),
        Some((id, args)) => match find_named(commands, id) {
            None => (seq![], None),
            Some(i) => dispatch_node(commands[i], seq![i as usize], args, players),
        },
    }
}

/// A handler call to make.
pub struct Invocation {
    pub path: Vec<usize>,
    pub args: Vec<String>,
}

impl Invocation {
    pub open spec fn spec_view(self) -> StepView {
        (self.path@, strs(self.args@))
    }
}

pub open spec fn steps_view(s: Seq<Invocation>) -> Seq<StepView> {
    s.map_values(|i: Invocation| i.spec_view())
}

/// The handler calls that a line asks for, in order, and the failure to report
/// once they have all succeeded.
pub struct DispatchPlan {
    pub steps: Vec<Invocation>,
    pub failure: Option<ArgError>,
}

/// What the caller of a plan does next.
#[derive(Clone, Debug, PartialEq, Eq)]
pub enum DispatchAction {
    /// Call the handler of the step with this index.
    Invoke(usize),
    /// Send this text to the player and stop.
    Notify(String),
    /// Stop; nothing is left to report.
    Done,
}

impl DispatchPlan {
    pub open spec fn spec_view(self) -> (Seq<StepView>, Option<ArgError>) {
        (steps_view(self.steps@), self.failure)
    }

    /// The next action once the first `completed` handler calls have been made,
    /// `last` being what the latest one returned (`Ok` before the first): a
    /// handler's error is reported and ends the dispatch; otherwise the next
    /// step runs, and after the last one the validation failure, if any, is
    /// reported.
    pub fn next_action(&self, completed: usize, last: Result<(), String>) -> (r: DispatchAction)
        ensures
            match last {
                Err(m) => r == DispatchAction::Notify(m),
                Ok(()) => if completed < self.steps@.len() {
                    r == DispatchAction::Invoke(completed)
                } else {
                    match self.failure {
                        Some(e) => r matches DispatchAction::Notify(t) && t@ == error_text(e),
                        None => r == DispatchAction::Done,
                    }
                },
            },
    {
        match last {
            Err(m) => DispatchAction::Notify(m),
            Ok(()) => if completed < self.steps.len() {
                DispatchAction::Invoke(completed)
            } else {
                match &self.failure {
                    Some(e) => DispatchAction::Notify(e.message()),
                    None => DispatchAction::Done,
                }
            },
        }
    }
}

proof fn lemma_first_named_unique<H>(s: Seq<Command<H>>, id: Seq<char>, j: int)
    requires
        is_first_named(s, id, j),
    ensures
        find_named(s, id) == Some(j),
{
    let c = choose|k: int| is_first_named(s, id, k);
    assert(is_first_named(s, id, c));
    if c < j {
        assert(s[c].identifier@ != id);
    } else if c > j {
        assert(s[j].identifier@ != id);
    }
}

/// Index of the first command of `s` named `id`.
fn find_command<H>(s: &Vec<Command<H>>, id: &String) -> (r: Option<usize>)
    ensures
        r matches Some(j) ==> find_named(s@, id@) == Some(j as int),
        r is None ==> find_named(s@, id@) is None,
{
    let mut i: usize = 0;
    while i < s.len()
        invariant
            i <= s@.len(),
            forall|k: int| 0 <= k < i ==> s@[k].identifier@ != id@,
        decreases s@.len() - i,
    {
        if s[i].identifier == *id {
            proof {
                lemma_first_named_unique(s@, id@, i as int);
            }
            return Some(i);
        }
        i = i + 1;
    }
    proof {
        if exists|j: int| is_first_named(s@, id@, j) {
            let j = choose|j: int| is_first_named(s@, id@, j);
            assert(s@[j].identifier@ == id@);
        }
    }
    None
}

/// Checks every binding, in order, against the arguments from `from` on.
fn prevalidate(
    bindings: &ArgBindings,
    args: &Vec<String>,
    from: usize,
    players: &PlayerDirectory,
) -> (r: Result<(), ArgError>)
    requires
        from <= args@.len(),
    ensures
        r == prevalidation(bindings@, strs(args@).skip(from as int), players@),
{
    let ghost toks = strs(args@).skip(from as int);
    let ghost bs = bindings@;
    let n = bindings.len();
    let avail = args.len() - from;
    let mut i: usize = 0;
    proof {
        assert(bs.skip(0) =~= bs);
    }
    while i < n
        invariant
            n == bs.len(),
            bs == bindings@,
            toks == strs(args@).skip(from as int),
            avail == toks.len(),
            avail == args@.len() - from,
            from + avail <= usize::MAX,
            from <= args@.len(),
            i <= n,
            prevalidation(bs, toks, players@) == prevalidation(bs.skip(i as int), toks, players@),
        decreases n - i,
    {
        let entry = bindings.entry(i);
        let position = entry.0;
        proof {
            assert(bs.skip(i as int)[0] == bs[i as int]);
            assert(bs.skip(i as int).drop_first() =~= bs.skip(i + 1));
        }
        if position as usize >= avail {
            return Err(ArgError::MissingArgument { kind: entry.1.kind(), position: position as usize });
        }
        let at: usize = from + position as usize;
        let arg = args[at].as_str();
        proof {
            assert(toks[position as int] == arg@);
        }
        match entry.1.validate(arg, players) {
            Ok(()) => {},
            Err(e) => return Err(e),
        }
        i = i + 1;
    }
    proof {
        assert(bs.skip(n as int).len() == 0);
    }
    Ok(())
}

/// A copy of `p`.
fn copy_path(p: &Vec<usize>) -> (r: Vec<usize>)
    ensures
        r@ == p@,
{
    let mut r: Vec<usize> = Vec::new();
    let mut i: usize = 0;
    while i < p.len()
        invariant
            i <= p@.len(),
            r@ == p@.take(i as int),
        decreases p@.len() - i,
    {
        r.push(p[i]);
        proof {
            assert(p@.take(i + 1) =~= p@.take(i as int).push(p@[i as int]));
        }
        i = i + 1;
    }
    proof {
        assert(p@.take(p@.len() as int) =~= p@);
    }
    r
}

/// A copy of the arguments from `from` on.
fn copy_args(args: &Vec<String>, from: usize) -> (r: Vec<String>)
    requires
        from <= args@.len(),
    ensures
        strs(r@) == strs(args@).skip(from as int),
{
    let mut r: Vec<String> = Vec::new();
    let mut i: usize = from;
    while i < args.len()
        invariant
            from <= i <= args@.len(),
            r@.len() == i - from,
            forall|k: int| 0 <= k < r@.len() ==> (#[trigger] r@[k])@ == args@[from + k]@,
        decreases args@.len() - i,
    {
        let s = args[i].clone();
        r.push(s);
        i = i + 1;
    }
    proof {
        assert(strs(r@) =~= strs(args@).skip(from as int));
    }
    r
}

fn dispatch_from<H>(
    cmd: &Command<H>,
    path: Vec<usize>,
    args: &Vec<String>,
    from: usize,
    players: &PlayerDirectory,
) -> (r: DispatchPlan)
    requires
        from <= args@.len(),
    ensures
        r.spec_view() == dispatch_node(*cmd, path@, strs(args@).skip(from as int), players@),
    decreases args@.len() - from,
{
    let ghost toks = strs(args@).skip(from as int);
    if let Err(e) = prevalidate(&cmd.validators, args, from, players) {
        proof {
            assert(steps_view(Seq::<Invocation>::empty()) =~= Seq::<StepView>::empty());
        }
        return DispatchPlan { steps: Vec::new(), failure: Some(e) };
    }
    let child_path = copy_path(&path);
    let mut steps: Vec<Invocation> = Vec::new();
    if cmd.handler.is_some() {
        steps.push(Invocation { path, args: copy_args(args, from) });
    }
    let ghost here = steps_view(steps@);
    proof {
        if cmd.handler is Some {
            assert(here =~= seq![(path@, toks)]);
        } else {
            assert(here =~= Seq::<StepView>::empty());
        }
    }
    if from == args.len() {
        return DispatchPlan { steps, failure: None };
    }
    proof {
        assert(toks[0] == args@[from as int]@);
    }
    match find_command(&cmd.subcommands, &args[from]) {
        None => DispatchPlan { steps, failure: None },
        Some(j) => {
            let mut child_path = child_path;
            child_path.push(j);
            assert(child_path@ == path@.push(j));
            let mut below = dispatch_from(&cmd.subcommands[j], child_path, args, from + 1, players);
            proof {
                assert(toks.drop_first() =~= strs(args@).skip(from + 1));
                assert(find_named(cmd.subcommands@, toks[0]) == Some(j as int));
                assert(prevalidation(cmd.validators@, toks, players@) is Ok);
                assert(toks.len() > 0);
            }
            let ghost below_steps = below.steps@;
            let ghost below_view = below.spec_view();
            proof {
                assert(below_view == dispatch_node(
                    cmd.subcommands@[j as int],
                    path@.push(j),
                    toks.drop_first(),
                    players@,
                ));
            }
            steps.append(&mut below.steps);
            proof {
                assert(steps_view(steps@) =~= here + steps_view(below_steps));
            }
            DispatchPlan { steps, failure: below.failure }
        },
    }
}

/// The command reached from `c` by following the child indices of `path`.
pub open spec fn descend<H>(c: Command<H>, path: Seq<usize>) -> Option<Command<H>>
    decreases path.len(),
{
    if path.len() == 0 {
        Some(c)
    } else if path[0] < c.subcommands@.len() {
        descend(c.subcommands@[path[0] as int], path.drop_first())
    } else {
        None
    }
}

/// The command that `path` names among `commands`: a top-level index, then
/// child indices.
pub open spec fn node_at<H>(commands: Seq<Command<H>>, path: Seq<usize>) -> Option<Command<H>> {
    if path.len() > 0 && path[0] < commands.len() {
        descend(commands[path[0] as int], path.drop_first())
    } else {
        None
    }
}

/// The registered top-level commands.
pub struct CommandManager<H> {
    commands: Vec<Command<H>>,
}

impl<H> View for CommandManager<H> {
    type V = Seq<Command<H>>;

    closed spec fn view(&self) -> Seq<Command<H>> {
        self.commands@
    }
}

impl<H> CommandManager<H> {
    pub fn new() -> (r: Self)
        ensures
            r@.len() == 0,
    {
        CommandManager { commands: Vec::new() }
    }

    /// Registers `command`; refused when its identifier is already registered.
    pub fn add(&mut self, command: Command<H>) -> (r: Result<(), RegistrationError>)
        ensures
            match find_named(old(self)@, command.identifier@) {
                Some(_) => r matches Err(RegistrationError::DuplicateIdentifier(name))
                    && name@ == command.identifier@ && final(self)@ == old(self)@,
                None => r is Ok && final(self)@ == old(self)@.push(command),
            },
    {
        if find_command(&self.commands, &command.identifier).is_some() {
            return Err(RegistrationError::DuplicateIdentifier(command.identifier.clone()));
        }
        self.commands.push(command);
        Ok(())
    }

    /// The command that `path` leads to: a top-level index, then child indices.
    pub fn command_at(&self, path: &Vec<usize>) -> (r: Option<&Command<H>>)
        ensures
            r matches Some(c) ==> node_at(self@, path@) == Some(*c),
            r is None ==> node_at(self@, path@) is None,
    {
        if path.len() == 0 || path[0] >= self.commands.len() {
            return None;
        }
        let mut cur: &Command<H> = &self.commands[path[0]];
        let mut i: usize = 1;
        proof {
            assert(path@.drop_first() =~= path@.skip(1));
        }
        while i < path.len()
            invariant
                1 <= i <= path@.len(),
                node_at(self@, path@) == descend(*cur, path@.skip(i as int)),
            decreases path@.len() - i,
        {
            proof {
                assert(path@.skip(i as int)[0] == path@[i as int]);
                assert(path@.skip(i as int).drop_first() =~= path@.skip(i + 1));
            }
            if path[i] >= cur.subcommands.len() {
                return None;
            }
            cur = &cur.subcommands[path[i]];
            i = i + 1;
        }
        proof {
            assert(path@.skip(i as int).len() == 0);
        }
        Some(cur)
    }

    /// Works out what `line` asks for: the handler calls in order, and the
    /// validation failure to report after them, if any. `players` are the
    /// connected players that player arguments are looked up in.
    pub fn process(&self, line: &str, players: &PlayerDirectory) -> (r: DispatchPlan)
        ensures
            r.spec_view() == dispatch(self@, line@, players@),
    {
        let empty = DispatchPlan { steps: Vec::new(), failure: None };
        proof {
            assert(steps_view(Seq::<Invocation>::empty()) =~= Seq::<StepView>::empty());
        }
        let (id, args) = match parse_command_line(line) {
            Some(parsed) => parsed,
            None => return empty,
        };
        let i = match find_command(&self.commands, &id) {
            Some(i) => i,
            None => return empty,
        };
        let mut path: Vec<usize> = Vec::new();
        path.push(i);
        proof {
            assert(path@ =~= seq![i]);
            assert(strs(args@).skip(0) =~= strs(args@));
        }
        dispatch_from(&self.commands[i], path, &args, 0, players)
    }
}


/// A line whose identifier names no registered command calls no handler and
/// reports nothing.
pub proof fn lemma_unknown_command_is_silent<H>(
    commands: Seq<Command<H>>,
    line: Seq<char>,
    players: Map<i32, PlayerInfo>,
)
    requires
        command_line(line) matches Some((id, _)) && find_named(commands, id) is None,
    ensures
        dispatch(commands, line, players) == (Seq::<StepView>::empty(), None::<ArgError>),
{
}

/// When a bound argument of the matched command fails validation, no handler
/// runs and that one failure is what gets reported.
pub proof fn lemma_failed_validation_calls_nothing<H>(
    commands: Seq<Command<H>>,
    line: Seq<char>,
    players: Map<i32, PlayerInfo>,
    i: int,
    e: ArgError,
)
    requires
        command_line(line) matches Some((id, args)) && find_named(commands, id) == Some(i)
            && prevalidation(commands[i].validators@, args, players) == Err::<(), ArgError>(e),
    ensures
        dispatch(commands, line, players) == (Seq::<StepView>::empty(), Some(e)),
{
}

/// A first argument that names none of the subcommands ends the descent
/// without a report: only the command's own handler, if any, is called.
pub proof fn lemma_unknown_subcommand_is_silent<H>(
    cmd: Command<H>,
    path: Seq<usize>,
    args: Seq<Seq<char>>,
    players: Map<i32, PlayerInfo>,
)
    requires
        prevalidation(cmd.validators@, args, players) is Ok,
        args.len() > 0,
        find_named(cmd.subcommands@, args[0]) is None,
    ensures
        dispatch_node(cmd, path, args, players).1 is None,
        dispatch_node(cmd, path, args, players).0 == if cmd.handler is Some {
            seq![(path, args)]
        } else {
            Seq::<StepView>::empty()
        },
{
}

/// A subcommand named by the first argument is dispatched with the arguments
/// after it, once the parent's own checks and handler call are done.
pub proof fn lemma_subcommand_gets_remaining_args<H>(
    cmd: Command<H>,
    path: Seq<usize>,
    args: Seq<Seq<char>>,
    players: Map<i32, PlayerInfo>,
    j: int,
)
    requires
        prevalidation(cmd.validators@, args, players) is Ok,
        args.len() > 0,
        find_named(cmd.subcommands@, args[0]) == Some(j),
    ensures
        dispatch_node(cmd, path, args, players) == ({
            let below = dispatch_node(
                cmd.subcommands@[j],
                path.push(j as usize),
                args.drop_first(),
                players,
            );
            (
                if cmd.handler is Some {
                    seq![(path, args)] + below.0
                } else {
                    below.0
                },
                below.1,
            )
        }),
{
    let below = dispatch_node(cmd.subcommands@[j], path.push(j as usize), args.drop_first(), players);
    if cmd.handler is None {
        assert(Seq::<StepView>::empty() + below.0 =~= below.0);
    }
}

/// Dispatch reads nothing but the registry, the line and the players: two
/// plans for the same three are the same plan.
pub proof fn lemma_dispatch_is_repeatable<H>(
    commands: Seq<Command<H>>,
    line: Seq<char>,
    players: Map<i32, PlayerInfo>,
    first: DispatchPlan,
    second: DispatchPlan,
)
    requires
        first.spec_view() == dispatch(commands, line, players),
        second.spec_view() == dispatch(commands, line, players),
    ensures
        first.spec_view() == second.spec_view(),
        first.failure == second.failure,
{
}


proof fn lemma_node_steps_lead_to_handlers<H>(
    cmd: Command<H>,
    path: Seq<usize>,
    args: Seq<Seq<char>>,
    players: Map<i32, PlayerInfo>,
    k: int,
)
    requires
        0 <= k < dispatch_node(cmd, path, args, players).0.len(),
    ensures
        ({
            let p = dispatch_node(cmd, path, args, players).0[k].0;
            &&& p.len() >= path.len()
            &&& p.take(path.len() as int) == path
            &&& descend(cmd, p.skip(path.len() as int)) matches Some(c) && c.handler is Some
        }),
    decreases args.len(),
{
    let steps = dispatch_node(cmd, path, args, players).0;
    if prevalidation(cmd.validators@, args, players) is Ok {
        let here: Seq<StepView> = if cmd.handler is Some {
            seq![(path, args)]
        } else {
            seq![]
        };
        if k < here.len() {
            assert(steps[k].0 == path);
            assert(path.take(path.len() as int) =~= path);
            assert(path.skip(path.len() as int) =~= Seq::<usize>::empty());
        } else {
            let j = find_named(cmd.subcommands@, args[0])->0;
            assert(is_first_named(cmd.subcommands@, args[0], j));
            let child = cmd.subcommands@[j];
            let cpath = path.push(j as usize);
            let below = dispatch_node(child, cpath, args.drop_first(), players);
            let kk = k - here.len();
            assert(steps == here + below.0);
            assert(steps[k] == below.0[kk]);
            lemma_node_steps_lead_to_handlers(child, cpath, args.drop_first(), players, kk);
            let p = below.0[kk].0;
            assert(p.take(path.len() as int) =~= path) by {
                assert(p.take(cpath.len() as int).take(path.len() as int) =~= p.take(
                    path.len() as int,
                ));
            }
            let rest = p.skip(path.len() as int);
            assert(rest[0] == j as usize) by {
                assert(p.take(cpath.len() as int)[path.len() as int] == cpath[path.len() as int]);
            }
            assert(rest.drop_first() =~= p.skip(cpath.len() as int));
            assert(rest.len() > 0);
            assert(j < cmd.subcommands.len());
            assert(descend(cmd, rest) == descend(child, rest.drop_first()));
        }
    }
}

/// Every handler call in a plan names, through its path, a registered
/// command that has a handler.
pub proof fn lemma_steps_lead_to_handlers<H>(
    manager: CommandManager<H>,
    line: Seq<char>,
    players: Map<i32, PlayerInfo>,
    k: int,
)
    requires
        0 <= k < dispatch(manager@, line, players).0.len(),
    ensures
        node_at(manager@, dispatch(manager@, line, players).0[k].0) matches Some(c)
            && c.handler is Some,
{
    let commands = manager@;
    let (id, args) = command_line(line)->0;
    let i = find_named(commands, id)->0;
    assert(is_first_named(commands, id, i));
    let top: Seq<usize> = seq![i as usize];
    lemma_node_steps_lead_to_handlers(commands[i], top, args, players, k);
    let p = dispatch(commands, line, players).0[k].0;
    assert(p[0] == i as usize) by {
        assert(p.take(1)[0] == top[0]);
    }
    assert(p.drop_first() =~= p.skip(1));
    assert(p.len() >= 1);
    assert(i < manager.commands.len());
    assert(node_at(commands, p) == descend(commands[i], p.skip(1)));
}

} // verus!
