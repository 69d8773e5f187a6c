//! The settings of one search, and how they follow from the arguments of a
//! command line and from the environment.
//!
//! An argument list has the shape `[program, query, file name, flag?]`. The
//! flag `-c` asks for a search that ignores case; so does the environment
//! variable `CASE_INSENSITIVE`, whatever it is set to. The flag is looked at
//! first, and the environment only where the flag is absent.

use vstd::prelude::*;

verus! {

/// The argument that, in fourth place, makes the search ignore case.
pub const CASE_FLAG: &'static str = "-c";

/// The environment variable whose presence makes the search ignore case.
pub const CASE_INSENSITIVE_VAR: &'static str = "CASE_INSENSITIVE";

/// Why an argument list yields no settings.
#[derive(Clone, Copy, Debug, PartialEq, Eq, Structural)]
pub enum ArgumentError {
    /// Nothing follows the program's name.
    MissingQuery,
    /// A query follows the program's name, but no file name follows the query.
    MissingFilename,
}

impl ArgumentError {
    /// The reason in words.
    pub fn reason(&self) -> (text: &'static str)
        ensures
            *self == ArgumentError::MissingQuery ==> text@ == "missing query"@,
            *self == ArgumentError::MissingFilename ==> text@ == "missing filename"@,
    {
        match self {
            ArgumentError::MissingQuery => "missing query",
            ArgumentError::MissingFilename => "missing filename",
        }
    }
}

/// The settings of one search.
pub struct Config {
    /// The text to look for.
    pub query: String,
    /// The file whose lines are searched.
    pub filename: String,
    /// Whether letters match only in their own case.
    pub case_sensitive: bool,
}

/// What a `Config` holds, as mathematical values.
pub ghost struct ConfigView {
    pub query: Seq<char>,
    pub filename: Seq<char>,
    pub case_sensitive: bool,
}

impl View for Config {
    type V = ConfigView;

    open spec fn view(&self) -> ConfigView {
        ConfigView {
            query: self.query@,
            filename: self.filename@,
            case_sensitive: self.case_sensitive,
        }
    }
}

/// The view of an outcome of resolving: the settings' view, or the error.
pub open spec fn outcome_view(outcome: Result<Config, ArgumentError>) -> Result<
    ConfigView,
    ArgumentError,
> {
    match outcome {
        Ok(config) => Ok(config@),
        Err(error) => Err(error),
    }
}

/// The flag stands in fourth place.
pub open spec fn flag_given(args: Seq<Seq<char>>) -> bool {
    args.len() > 3 && args[3] == CASE_FLAG@
}

/// The environment has a say: query and file name are there, the flag is not.
pub open spec fn consults_environment(args: Seq<Seq<char>>) -> bool {
    args.len() >= 3 && !flag_given(args)
}

/// The settings that `args` give, in an environment where the variable is
/// set (`env_set`) or not.
pub open spec fn resolve(args: Seq<Seq<char>>, env_set: bool) -> Result<ConfigView, ArgumentError> {
    if args.len() < 2 {
        Err(ArgumentError::MissingQuery)
    } else if args.len() < 3 {
        Err(ArgumentError::MissingFilename)
    } else {
        Ok(
            ConfigView {
                query: args[1],
                filename: args[2],
                case_sensitive: !flag_given(args) && !env_set,
            },
        )
    }
}

impl Config {
    /// Resolves `args`, asking `env_lookup` for the environment variable only
    /// where the outcome depends on it.
    pub fn new<F: Fn(&str) -> Option<String>>(args: Vec<String>, env_lookup: F) -> (outcome: Result<
        Config,
        ArgumentError,
    >)
        requires
            call_requires(env_lookup, (CASE_INSENSITIVE_VAR,)),
        ensures
            !consults_environment(args.deep_view()) ==> forall|env_set: bool|
                outcome_view(outcome) == #[trigger] resolve(args.deep_view(), env_set),
            consults_environment(args.deep_view()) ==> exists|found: Option<String>|
                call_ensures(env_lookup, (CASE_INSENSITIVE_VAR,), found) && outcome_view(outcome)
                    == resolve(args.deep_view(), found is Some),
    {
        if args.len() >= 3 && !Config::has_flag(&args) {
            let found = env_lookup(CASE_INSENSITIVE_VAR);
            Config::resolve_with(args, found)
        } else {
            Config::resolve_with(args, None)
        }
    }

    /// Resolves `args` in an environment where looking up the variable gave
    /// `env_value`.
    pub fn resolve_with(args: Vec<String>, env_value: Option<String>) -> (outcome: Result<
        Config,
        ArgumentError,
    >)
        ensures
            outcome_view(outcome) == resolve(args.deep_view(), env_value is Some),
    {
        let mut args = args;
        if args.len() < 2 {
            return Err(ArgumentError::MissingQuery);
        }
        if args.len() < 3 {
            return Err(ArgumentError::MissingFilename);
        }
        let case_sensitive = Config::is_case_sensitive(&args, &env_value);
        args.truncate(3);
        let filename = args.pop().unwrap();
        let query = args.pop().unwrap();
        Ok(Config { query, filename, case_sensitive })
    }

    /// Whether the search tells letters of different case apart: the flag
    /// decides first, the environment only where the flag is absent.
    pub fn is_case_sensitive(args: &Vec<String>, env_value: &Option<String>) -> (sensitive: bool)
        ensures
            sensitive == (!flag_given(args.deep_view()) && env_value is None),
    {
        if Config::has_flag(args) {
            false
        } else {
            env_value.is_none()
        }
    }

    /// Whether the flag stands in fourth place.
    fn has_flag(args: &Vec<String>) -> (given: bool)
        ensures
            given == flag_given(args.deep_view()),
    {
        if args.len() > 3 {
            let flag = CASE_FLAG.to_owned();
            args[3] == flag
        } else {
            false
        }
    }
}

/// Three arguments give the second as the query and the third as the file
/// name, and case counts unless the environment variable is set.
pub proof fn lemma_three_arguments(
    program: Seq<char>,
    query: Seq<char>,
    filename: Seq<char>,
    env_set: bool,
)
    ensures
        resolve(seq![program, query, filename], env_set) == Ok::<ConfigView, ArgumentError>(
            ConfigView { query, filename, case_sensitive: !env_set },
        ),
{
}

/// Fewer than three arguments give an error, whatever the environment: the
/// query is missing where nothing follows the program's name, the file name
/// where only the query does.
pub proof fn lemma_too_few_arguments(args: Seq<Seq<char>>, env_set: bool)
    requires
        args.len() < 3,
    ensures
        resolve(args, env_set) == Err::<ConfigView, ArgumentError>(
            if args.len() < 2 {
                ArgumentError::MissingQuery
            } else {
                ArgumentError::MissingFilename
            },
        ),
{
}

/// With the flag in fourth place case does not count, whatever the
/// environment.
pub proof fn lemma_flag_beats_environment(
    program: Seq<char>,
    query: Seq<char>,
    filename: Seq<char>,
    env_set: bool,
)
    ensures
        resolve(seq![program, query, filename, CASE_FLAG@], env_set) == Ok::<
            ConfigView,
            ArgumentError,
        >(ConfigView { query, filename, case_sensitive: false }),
{
}

} // verus!
