//! The command line of the helper.

use crate::request::texts_of;
use crate::text::{chars_of, reads};
use vstd::prelude::*;

verus! {

/// What the helper is told on its command line.
pub struct RuntimeArgs {
    pub request_path: String,
    pub deploy_dir: Option<String>,
}

/// What a `RuntimeArgs` holds.
pub struct RuntimeArguments {
    pub request_path: Seq<char>,
    pub deploy_dir: Option<Seq<char>>,
}

/// The text of a string, if there is one.
pub open spec fn text_if_any(s: Option<String>) -> Option<Seq<char>> {
    match s {
        Some(s) => Some(s@),
        None => None,
    }
}

impl View for RuntimeArgs {
    type V = RuntimeArguments;

    open spec fn view(&self) -> RuntimeArguments {
        RuntimeArguments {
            request_path: self.request_path@,
            deploy_dir: text_if_any(self.deploy_dir),
        }
    }
}

/// What is wrong with a command line.
#[derive(Clone, Copy, Debug, Eq, PartialEq, Structural)]
pub enum RuntimeArgsError {
    MissingRequestValue,
    MissingDeployDirValue,
    MissingRequest,
}

/// Where the values stand among the arguments.
pub struct RuntimePositions {
    pub request: usize,
    pub deploy_dir: Option<usize>,
}

/// What a `RuntimePositions` holds.
pub struct Positions {
    pub request: int,
    pub deploy_dir: Option<int>,
}

/// A position, if there is one.
pub open spec fn position_if_any(at: Option<usize>) -> Option<int> {
    match at {
        Some(at) => Some(at as int),
        None => None,
    }
}

impl View for RuntimePositions {
    type V = Positions;

    open spec fn view(&self) -> Positions {
        Positions { request: self.request as int, deploy_dir: position_if_any(self.deploy_dir) }
    }
}

/// Where the values stand among `args`, behind the first `i`, in which they were found at `request`
/// and `deploy_dir`. The last of several values counts; an argument that is no switch is passed
/// over.
pub open spec fn positions_from(
    args: Seq<Seq<char>>,
    i: int,
    request: Option<int>,
    deploy_dir: Option<int>,
) -> Result<Positions, RuntimeArgsError>
    decreases args.len() - i,
{
    if i >= args.len() {
        match request {
            Some(request) => Ok(Positions { request, deploy_dir }),
            None => Err(RuntimeArgsError::MissingRequest),
        }
    } else if args[i] == "--request"@ {
        if i + 1 >= args.len() {
            Err(RuntimeArgsError::MissingRequestValue)
        } else {
            positions_from(args, i + 2, Some(i + 1), deploy_dir)
        }
    } else if args[i] == "--deploy-dir"@ {
        if i + 1 >= args.len() {
            Err(RuntimeArgsError::MissingDeployDirValue)
        } else {
            positions_from(args, i + 2, request, Some(i + 1))
        }
    } else {
        positions_from(args, i + 1, request, deploy_dir)
    }
}

/// Where the values stand among the arguments `args`, without the program's name.
pub open spec fn positions_of(args: Seq<Seq<char>>) -> Result<Positions, RuntimeArgsError> {
    positions_from(args, 0, None, None)
}

/// What the arguments `args`, without the program's name, say.
pub open spec fn runtime_arguments_of(args: Seq<Seq<char>>) -> Result<
    RuntimeArguments,
    RuntimeArgsError,
> {
    match positions_of(args) {
        Ok(positions) => Ok(
            RuntimeArguments {
                request_path: args[positions.request],
                deploy_dir: match positions.deploy_dir {
                    Some(at) => Some(args[at]),
                    None => None,
                },
            },
        ),
        Err(error) => Err(error),
    }
}

impl RuntimeArgsError {
    /// The error in words.
    pub fn message(self) -> (r: &'static str)
        ensures
            r@ == match self {
                RuntimeArgsError::MissingRequestValue => "missing value after --request"@,
                RuntimeArgsError::MissingDeployDirValue => "missing value after --deploy-dir"@,
                RuntimeArgsError::MissingRequest => "helper expects --request <file>"@,
            },
    {
        match self {
            RuntimeArgsError::MissingRequestValue => "missing value after --request",
            RuntimeArgsError::MissingDeployDirValue => "missing value after --deploy-dir",
            RuntimeArgsError::MissingRequest => "helper expects --request <file>",
        }
    }
}

impl RuntimeArgs {
    /// The directory of the deployment: the one named on the command line, or else the one that the
    /// helper stands in.
    pub fn deploy_dir_or(&self, helper_dir: &str) -> (dir: String)
        ensures
            dir@ == match self@.deploy_dir {
                Some(dir) => dir,
                None => helper_dir@,
            },
    {
        match &self.deploy_dir {
            Some(dir) => dir.clone(),
            None => helper_dir.to_owned(),
        }
    }
}

/// The directory whose settings give the title of the error dialogs: that of the deployment, where
/// the arguments make sense and name one, or else the one that the helper stands in, if known.
pub open spec fn title_dir_of(args: Seq<Seq<char>>, helper_dir: Option<Seq<char>>) -> Option<
    Seq<char>,
> {
    match runtime_arguments_of(args) {
        Ok(RuntimeArguments { deploy_dir: Some(dir), .. }) => Some(dir),
        _ => helper_dir,
    }
}

/// The directory whose settings give the title of the error dialogs.
pub fn title_dir(args: &Vec<String>, helper_dir: Option<String>) -> (dir: Option<String>)
    ensures
        text_if_any(dir) == title_dir_of(texts_of(args@), text_if_any(helper_dir)),
{
    match parse_runtime_args(args) {
        Ok(RuntimeArgs { deploy_dir: Some(dir), .. }) => Some(dir),
        _ => helper_dir,
    }
}

/// Where the values stand among the arguments `args`, without the program's name.
pub fn find_runtime_args(args: &Vec<String>) -> (r: Result<RuntimePositions, RuntimeArgsError>)
    ensures
        match r {
            Ok(found) => {
                &&& positions_of(texts_of(args@)) == Ok::<Positions, RuntimeArgsError>(found@)
                &&& found.request < args.len()
                &&& found.deploy_dir matches Some(at) ==> at < args.len()
            },
            Err(error) => positions_of(texts_of(args@)) == Err::<Positions, RuntimeArgsError>(
                error,
            ),
        },
{
    let ghost texts = texts_of(args@);
    let mut request: Option<usize> = None;
    let mut deploy_dir: Option<usize> = None;
    let mut i: usize = 0;
    while i < args.len()
        invariant
            i <= args.len(),
            texts == texts_of(args@),
            positions_of(texts) == positions_from(
                texts,
                i as int,
                position_if_any(request),
                position_if_any(deploy_dir),
            ),
            request matches Some(at) ==> at < args.len(),
            deploy_dir matches Some(at) ==> at < args.len(),
        decreases args.len() - i,
    {
        let arg: Vec<char> = chars_of(args[i].as_str());
        assert(texts[i as int] == arg@);
        if reads(arg.as_slice(), "--request") {
            if i + 1 >= args.len() {
                return Err(RuntimeArgsError::MissingRequestValue);
            }
            request = Some(i + 1);
            i = i + 2;
        } else if reads(arg.as_slice(), "--deploy-dir") {
            if i + 1 >= args.len() {
                return Err(RuntimeArgsError::MissingDeployDirValue);
            }
            deploy_dir = Some(i + 1);
            i = i + 2;
        } else {
            i = i + 1;
        }
    }
    match request {
        Some(request) => Ok(RuntimePositions { request, deploy_dir }),
        None => Err(RuntimeArgsError::MissingRequest),
    }
}

/// What the arguments `args`, without the program's name, say.
pub fn parse_runtime_args(args: &Vec<String>) -> (r: Result<RuntimeArgs, RuntimeArgsError>)
    ensures
        match r {
            Ok(parsed) => runtime_arguments_of(texts_of(args@)) == Ok::<
                RuntimeArguments,
                RuntimeArgsError,
            >(parsed@),
            Err(error) => runtime_arguments_of(texts_of(args@)) == Err::<
                RuntimeArguments,
                RuntimeArgsError,
            >(error),
        },
{
    match find_runtime_args(args) {
        Ok(positions) => Ok(
            RuntimeArgs {
                request_path: args[positions.request].clone(),
                deploy_dir: match positions.deploy_dir {
                    Some(at) => Some(args[at].clone()),
                    None => None,
                },
            },
        ),
        Err(error) => Err(error),
    }
}

/// What an argument, or a pair of them, is to the helper.
pub enum Told {
    /// The switch for a request, with its value.
    Request(Seq<char>),
    /// The switch for a deployment directory, with its value.
    DeployDir(Seq<char>),
    /// An argument that is no switch.
    Other(Seq<char>),
}

/// The arguments by which the helper is told of `told`.
pub open spec fn arguments_for(told: Seq<Told>) -> Seq<Seq<char>>
    decreases told.len(),
{
    if told.len() == 0 {
        seq![]
    } else {
        arguments_for(told.drop_last()) + match told.last() {
            Told::Request(path) => seq!["--request"@, path],
            Told::DeployDir(dir) => seq!["--deploy-dir"@, dir],
            Told::Other(argument) => seq![argument],
        }
    }
}

/// Whether no argument among `told` that stands for itself is a switch.
pub open spec fn others_are_no_switches(told: Seq<Told>) -> bool {
    forall|i: int|
        0 <= i < told.len() ==> (#[trigger] told[i] matches Told::Other(argument) ==> argument
            != "--request"@ && argument != "--deploy-dir"@)
}

/// The last request among `told`, if there is one.
pub open spec fn last_request_in(told: Seq<Told>) -> Option<Seq<char>>
    decreases told.len(),
{
    if told.len() == 0 {
        None
    } else {
        match told.last() {
            Told::Request(path) => Some(path),
            _ => last_request_in(told.drop_last()),
        }
    }
}

/// The last deployment directory among `told`, if there is one.
pub open spec fn last_deploy_dir_in(told: Seq<Told>) -> Option<Seq<char>>
    decreases told.len(),
{
    if told.len() == 0 {
        None
    } else {
        match told.last() {
            Told::DeployDir(dir) => Some(dir),
            _ => last_deploy_dir_in(told.drop_last()),
        }
    }
}

/// Whether `at` is where `value` stands among `args`, if there is one.
spec fn stands_at(args: Seq<Seq<char>>, at: Option<int>, value: Option<Seq<char>>) -> bool {
    match at {
        Some(at) => 0 <= at < args.len() && value == Some(args[at]),
        None => value is None,
    }
}

/// Going through all of `told` comes to its end with the last values that it names.
proof fn lemma_told(told: Seq<Told>, tail: Seq<Seq<char>>) -> (found: (Option<int>, Option<int>))
    requires
        others_are_no_switches(told),
    ensures
        ({
            let args = arguments_for(told);
            let (request, deploy_dir) = found;
            &&& positions_of(args + tail) == positions_from(
                args + tail,
                args.len() as int,
                request,
                deploy_dir,
            )
            &&& stands_at(args, request, last_request_in(told))
            &&& stands_at(args, deploy_dir, last_deploy_dir_in(told))
        }),
    decreases told.len(),
{
    let args = arguments_for(told);
    if told.len() == 0 {
        (None, None)
    } else {
        let fewer = told.drop_last();
        let last = told.last();
        let before = arguments_for(fewer);
        let own = match last {
            Told::Request(path) => seq!["--request"@, path],
            Told::DeployDir(dir) => seq!["--deploy-dir"@, dir],
            Told::Other(argument) => seq![argument],
        };
        assert forall|i: int| 0 <= i < fewer.len() implies (#[trigger] fewer[i] matches Told::Other(
            argument,
        ) ==> argument != "--request"@ && argument != "--deploy-dir"@) by {
            assert(fewer[i] == told[i]);
        }
        let (request, deploy_dir) = lemma_told(fewer, own + tail);
        let n = before.len() as int;
        assert(before + (own + tail) == args + tail);
        assert((args + tail)[n] == own[0]);
        lemma_switches_differ();
        assert(last == told[told.len() - 1]);
        match last {
            Told::Request(path) => {
                assert((args + tail)[n + 1] == path);
                (Some(n + 1), deploy_dir)
            },
            Told::DeployDir(dir) => {
                assert((args + tail)[n + 1] == dir);
                (request, Some(n + 1))
            },
            Told::Other(_) => { (request, deploy_dir) },
        }
    }
}

/// The helper does as it was last told: of several requests and of several deployment directories
/// the last counts, whatever else stands among the arguments and in whatever order; without a
/// request there is nothing to do, and a switch at the end wants its value.
pub proof fn the_last_values_count(told: Seq<Told>)
    requires
        others_are_no_switches(told),
    ensures
        runtime_arguments_of(arguments_for(told)) == match last_request_in(told) {
            Some(request_path) => Ok::<RuntimeArguments, RuntimeArgsError>(
                RuntimeArguments { request_path, deploy_dir: last_deploy_dir_in(told) },
            ),
            None => Err(RuntimeArgsError::MissingRequest),
        },
        runtime_arguments_of(arguments_for(told).push("--request"@)) == Err::<
            RuntimeArguments,
            RuntimeArgsError,
        >(RuntimeArgsError::MissingRequestValue),
        runtime_arguments_of(arguments_for(told).push("--deploy-dir"@)) == Err::<
            RuntimeArguments,
            RuntimeArgsError,
        >(RuntimeArgsError::MissingDeployDirValue),
{
    let args = arguments_for(told);
    lemma_switches_differ();
    let found = lemma_told(told, seq![]);
    assert(args + Seq::<Seq<char>>::empty() == args);
    let request_at_end = lemma_told(told, seq!["--request"@]);
    assert(args + seq!["--request"@] == args.push("--request"@));
    let dir_at_end = lemma_told(told, seq!["--deploy-dir"@]);
    assert(args + seq!["--deploy-dir"@] == args.push("--deploy-dir"@));
}

/// Values are found behind their own switches.
pub proof fn values_stand_behind_their_switches(args: Seq<Seq<char>>)
    ensures
        positions_of(args) matches Ok(positions) ==> {
            &&& 1 <= positions.request < args.len()
            &&& args[positions.request - 1] == "--request"@
            &&& positions.deploy_dir matches Some(at) ==> 1 <= at < args.len() && args[at - 1]
                == "--deploy-dir"@
        },
{
    lemma_values_stand(args, 0, None, None);
}

proof fn lemma_values_stand(
    args: Seq<Seq<char>>,
    i: int,
    request: Option<int>,
    deploy_dir: Option<int>,
)
    requires
        0 <= i,
        request matches Some(at) ==> 1 <= at < args.len() && args[at - 1] == "--request"@,
        deploy_dir matches Some(at) ==> 1 <= at < args.len() && args[at - 1] == "--deploy-dir"@,
    ensures
        positions_from(args, i, request, deploy_dir) matches Ok(positions) ==> {
            &&& 1 <= positions.request < args.len()
            &&& args[positions.request - 1] == "--request"@
            &&& positions.deploy_dir matches Some(at) ==> 1 <= at < args.len() && args[at - 1]
                == "--deploy-dir"@
        },
    decreases args.len() - i,
{
    if i < args.len() {
        if args[i] == "--request"@ {
            if i + 1 < args.len() {
                lemma_values_stand(args, i + 2, Some(i + 1), deploy_dir);
            }
        } else if args[i] == "--deploy-dir"@ {
            if i + 1 < args.len() {
                lemma_values_stand(args, i + 2, request, Some(i + 1));
            }
        } else {
            lemma_values_stand(args, i + 1, request, deploy_dir);
        }
    }
}

/// The title comes from the directory that the arguments name, where they make sense and name one,
/// and otherwise from the helper's own.
pub proof fn titles_come_from_the_named_directory(
    args: Seq<Seq<char>>,
    helper_dir: Option<Seq<char>>,
)
    ensures
        runtime_arguments_of(args) matches Ok(told) ==> (told.deploy_dir is Some ==> title_dir_of(
            args,
            helper_dir,
        ) == told.deploy_dir),
        runtime_arguments_of(args) matches Ok(told) ==> (told.deploy_dir is None ==> title_dir_of(
            args,
            helper_dir,
        ) == helper_dir),
        runtime_arguments_of(args) is Err ==> title_dir_of(args, helper_dir) == helper_dir,
{
}

proof fn lemma_switches_differ()
    ensures
        "--request"@ != "--deploy-dir"@,
{
    reveal_strlit("--request");
    reveal_strlit("--deploy-dir");
    assert("--request"@.len() == 9);
    assert("--deploy-dir"@.len() == 12);
}

/// A text or a position that is there is taken as it is.
pub proof fn what_is_there_is_taken_as_it_is(text: Option<String>, at: Option<usize>)
    ensures
        text_if_any(text) is Some <==> text is Some,
        text matches Some(s) ==> text_if_any(text) == Some(s@),
        position_if_any(at) is Some <==> at is Some,
        at matches Some(n) ==> position_if_any(at) == Some(n as int),
{
}

/// What arguments and positions hold is each of their fields.
pub proof fn arguments_hold_each_field(args: RuntimeArgs, positions: RuntimePositions)
    ensures
        args@.request_path == args.request_path@,
        args@.deploy_dir is Some <==> args.deploy_dir is Some,
        args.deploy_dir matches Some(dir) ==> args@.deploy_dir == Some(dir@),
        positions@.request == positions.request,
        positions@.deploy_dir is Some <==> positions.deploy_dir is Some,
        positions.deploy_dir matches Some(at) ==> positions@.deploy_dir == Some(at as int),
{
}

} // verus!
