//! Configuration of the multiplexer.
use vstd::prelude::*;

use crate::multiplexer::models::{Input, Output};

verus! {

/// The time between two ticks where none is configured, in milliseconds.
pub const DEFAULT_EMIT_INTERVAL_MS: u64 = 10;

/// How long a packet stays fresh where nothing is configured, in milliseconds.
pub const DEFAULT_STALENESS_MS: u64 = 500;

/// An entry of global settings, with what it leaves out.
#[derive(Debug)]
pub struct GlobalSettings {
    pub path_to_protobuf: String,
    pub emit_interval_ms: Option<u64>,
    pub staleness_ms: Option<u64>,
}

/// The configuration, with its inputs in the order of their priority.
pub struct AppConfig<I, O> {
    pub path_to_protobuf: String,
    pub emit_interval_ms: u64,
    pub staleness_ms: u64,
    pub inputs: Vec<Input<I>>,
    pub outputs: Vec<Output<O>>,
}

/// A setting, or its default.
pub open spec fn setting(given: Option<u64>, default: u64) -> u64 {
    match given {
        Some(n) => n,
        None => default,
    }
}

/// The smallest number comes first.
pub open spec fn by_priority<S>(inputs: Seq<Input<S>>) -> bool {
    forall|i: int, j: int| 0 <= i < j < inputs.len() ==> inputs[i].priority <= inputs[j].priority
}

/// The inputs of one priority, in their order.
pub open spec fn of_priority<S>(inputs: Seq<Input<S>>, priority: u16) -> Seq<Input<S>> {
    inputs.filter(|input: Input<S>| input.priority == priority)
}

/// Whether `sorted` holds the inputs by priority, those of one priority in the
/// order in which they were.
pub open spec fn is_stable_sort<S>(inputs: Seq<Input<S>>, sorted: Seq<Input<S>>) -> bool {
    &&& by_priority(sorted)
    &&& forall|p: u16| #[trigger] of_priority(sorted, p) == of_priority(inputs, p)
}

/// Inserting an input behind all that are not after it keeps the others as they
/// are and makes it the last of its priority.
proof fn lemma_insert<S>(sorted: Seq<Input<S>>, pos: int, input: Input<S>, p: u16)
    requires
        0 <= pos <= sorted.len(),
        forall|i: int| pos <= i < sorted.len() ==> (#[trigger] sorted[i]).priority > input.priority,
    ensures
        of_priority(sorted.insert(pos, input), p) == if input.priority == p {
            of_priority(sorted, p).push(input)
        } else {
            of_priority(sorted, p)
        },
{
    let pred = |x: Input<S>| x.priority == p;
    let front = sorted.take(pos);
    let back = sorted.skip(pos);
    assert(sorted =~= front + back);
    assert(sorted.insert(pos, input) =~= front.push(input) + back);
    Seq::filter_distributes_over_add(front, back, pred);
    Seq::filter_distributes_over_add(front.push(input), back, pred);
    assert(front.push(input).drop_last() =~= front);
    assert(front.push(input).filter(pred) == if pred(input) {
        front.filter(pred).push(input)
    } else {
        front.filter(pred)
    }) by {
        reveal(Seq::filter);
    }
    if input.priority == p {
        lemma_none_pass(back, pred);
        assert(front.filter(pred).push(input) + back.filter(pred) =~= (front.filter(pred)
            + back.filter(pred)).push(input));
    }
}

proof fn lemma_none_pass<A>(s: Seq<A>, pred: spec_fn(A) -> bool)
    requires
        forall|i: int| 0 <= i < s.len() ==> !pred(#[trigger] s[i]),
    ensures
        s.filter(pred) == Seq::<A>::empty(),
    decreases s.len(),
{
    reveal(Seq::filter);
    if s.len() > 0 {
        assert(forall|i: int|
            0 <= i < s.drop_last().len() ==> #[trigger] s.drop_last()[i] == s[i]);
        lemma_none_pass(s.drop_last(), pred);
        assert(!pred(s[s.len() - 1]));
    }
}

/// Sorts inputs by priority, and keeps the order of those with the same one.
pub fn sort_inputs<S>(inputs: Vec<Input<S>>) -> (r: Vec<Input<S>>)
    ensures
        is_stable_sort(inputs@, r@),
{
    let ghost all = inputs@;
    let mut sorted: Vec<Input<S>> = Vec::new();
    assert(forall|p: u16| #[trigger]
        of_priority(sorted@, p) =~= of_priority(all.take(0), p)) by {
        reveal(Seq::filter);
    }
    for input in it: inputs
        invariant
            it.seq() == all,
            is_stable_sort(all.take(it.index() as int), sorted@),
    {
        let ghost n = it.index() as int;
        let ghost before = sorted@;
        let mut pos = sorted.len();
        while pos > 0 && sorted[pos - 1].priority > input.priority
            invariant
                pos <= sorted@.len(),
                sorted@ == before,
                forall|i: int|
                    pos <= i < sorted@.len() ==> (#[trigger] sorted@[i]).priority > input.priority,
            decreases pos,
        {
            pos = pos - 1;
        }
        let ghost item = input;
        sorted.insert(pos, input);
        proof {
            assert(sorted@ == before.insert(pos as int, item));
            assert forall|i: int, j: int| 0 <= i < j < sorted@.len() implies sorted@[i].priority
                <= sorted@[j].priority by {
                if pos > 0 {
                    assert(before[pos - 1].priority <= item.priority);
                }
            }
            assert forall|p: u16| #[trigger]
                of_priority(sorted@, p) == of_priority(all.take(n + 1), p) by {
                lemma_insert(before, pos as int, item, p);
                assert(of_priority(before, p) == of_priority(all.take(n), p));
                assert(all.take(n + 1).drop_last() =~= all.take(n));
                reveal(Seq::filter);
            }
        }
    }
    assert(all.take(all.len() as int) =~= all);
    sorted
}

impl<I, O> AppConfig<I, O> {
    /// The configuration out of its parts: of the global settings the first
    /// entry counts, and the input with the smallest number comes first.
    pub fn new(config: Vec<GlobalSettings>, inputs: Vec<Input<I>>, outputs: Vec<Output<O>>) -> (r:
        AppConfig<I, O>)
        ensures
            r.path_to_protobuf@ == if config@.len() > 0 {
                config@[0].path_to_protobuf@
            } else {
                Seq::<char>::empty()
            },
            r.emit_interval_ms == if config@.len() > 0 {
                setting(config@[0].emit_interval_ms, DEFAULT_EMIT_INTERVAL_MS)
            } else {
                DEFAULT_EMIT_INTERVAL_MS
            },
            r.staleness_ms == if config@.len() > 0 {
                setting(config@[0].staleness_ms, DEFAULT_STALENESS_MS)
            } else {
                DEFAULT_STALENESS_MS
            },
            is_stable_sort(inputs@, r.inputs@),
            r.outputs@ == outputs@,
    {
        let mut path_to_protobuf = String::new();
        let mut emit_interval_ms = DEFAULT_EMIT_INTERVAL_MS;
        let mut staleness_ms = DEFAULT_STALENESS_MS;
        if config.len() > 0 {
            path_to_protobuf = config[0].path_to_protobuf.clone();
            match config[0].emit_interval_ms {
                Some(n) => {
                    emit_interval_ms = n;
                },
                None => {},
            }
            match config[0].staleness_ms {
                Some(n) => {
                    staleness_ms = n;
                },
                None => {},
            }
        }
        AppConfig {
            path_to_protobuf,
            emit_interval_ms,
            staleness_ms,
            inputs: sort_inputs(inputs),
            outputs,
        }
    }
}

/// What the command line and the environment say about the configuration file.
#[derive(Debug)]
pub enum ConfigChoice {
    /// Read this file.
    Path(String),
    /// Print the usage and leave.
    Help,
    /// The option that names the file lacks the name.
    MissingPath,
    /// An argument that is not known.
    Unknown(String),
}

/// Whether `choice` is what the arguments and the environment come to: the
/// first argument decides, without any the environment does, and the default is
/// `config.toml`.
pub open spec fn is_choice(
    choice: ConfigChoice,
    args: Seq<String>,
    env: Option<String>,
) -> bool {
    if args.len() == 0 {
        &&& choice matches ConfigChoice::Path(path)
        &&& path@ == match env {
            Some(p) => p@,
            None => "config.toml"@,
        }
    } else if args[0]@ == "--config"@ {
        if args.len() > 1 {
            choice matches ConfigChoice::Path(path) && path@ == args[1]@
        } else {
            choice is MissingPath
        }
    } else if args[0]@ == "-h"@ || args[0]@ == "--help"@ {
        choice is Help
    } else {
        choice matches ConfigChoice::Unknown(arg) && arg@ == args[0]@
    }
}

/// Finds the configuration file out of the arguments behind the program's name
/// and the environment.
pub fn resolve_config_path(args: &Vec<String>, env: Option<String>) -> (r: ConfigChoice)
    ensures
        is_choice(r, args@, env),
{
    if args.len() == 0 {
        return match env {
            Some(path) => ConfigChoice::Path(path),
            None => ConfigChoice::Path("config.toml".to_owned()),
        };
    }
    let first = args[0].as_str();
    if crate::text::same_text(first, "--config") {
        if args.len() > 1 {
            ConfigChoice::Path(args[1].clone())
        } else {
            ConfigChoice::MissingPath
        }
    } else if crate::text::same_text(first, "-h") || crate::text::same_text(first, "--help") {
        ConfigChoice::Help
    } else {
        ConfigChoice::Unknown(args[0].clone())
    }
}

/// The first input is the most important one.
pub proof fn first_input_is_the_most_important<S>(inputs: Seq<Input<S>>, sorted: Seq<Input<S>>, i: int)
    requires
        is_stable_sort(inputs, sorted),
        0 <= i < sorted.len(),
    ensures
        sorted[0].priority <= sorted[i].priority,
{
}

/// Sorted inputs are in ascending order of their numbers. Those of each number are
/// all there, as often as before and in the order in which they were.
pub proof fn sorting_keeps_inputs_of_one_priority<S>(
    inputs: Seq<Input<S>>,
    sorted: Seq<Input<S>>,
    i: int,
    j: int,
    priority: u16,
)
    requires
        is_stable_sort(inputs, sorted),
        0 <= i < j < sorted.len(),
    ensures
        sorted[i].priority <= sorted[j].priority,
        sorted.filter(|x: Input<S>| x.priority == priority) == inputs.filter(
            |x: Input<S>| x.priority == priority,
        ),
{
    assert(of_priority(sorted, priority) == of_priority(inputs, priority));
}

/// What is set counts, and what is not set is ten milliseconds between two ticks and
/// half a second until a packet is stale.
pub proof fn settings_have_defaults(given: u64, default: u64)
    ensures
        setting(Some(given), default) == given,
        setting(None, default) == default,
        DEFAULT_EMIT_INTERVAL_MS == 10,
        DEFAULT_STALENESS_MS == 500,
{
}

/// The file is the one behind `--config`, else the one that the environment names, else
/// `config.toml`. `-h` and `--help` ask for the usage, and every other first argument
/// is refused.
pub proof fn the_first_argument_decides(
    choice: ConfigChoice,
    args: Seq<String>,
    env: Option<String>,
)
    requires
        is_choice(choice, args, env),
    ensures
        args.len() == 0 && env is None ==> (choice matches ConfigChoice::Path(path) && path@
            == "config.toml"@),
        args.len() == 0 && env is Some ==> (choice matches ConfigChoice::Path(path) && path@
            == env->0@),
        args.len() > 1 && args[0]@ == "--config"@ ==> (choice matches ConfigChoice::Path(path)
            && path@ == args[1]@),
        args.len() == 1 && args[0]@ == "--config"@ ==> choice is MissingPath,
        args.len() > 0 && (args[0]@ == "-h"@ || args[0]@ == "--help"@) ==> choice is Help,
        args.len() > 0 && args[0]@ != "--config"@ && args[0]@ != "-h"@ && args[0]@ != "--help"@
            ==> (choice matches ConfigChoice::Unknown(arg) && arg@ == args[0]@),
{
    reveal_strlit("--config");
    reveal_strlit("-h");
    reveal_strlit("--help");
    assert("--config"@.len() != "-h"@.len());
    assert("--config"@.len() != "--help"@.len());
}

} // verus!
