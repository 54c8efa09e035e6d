//! The argument tokenizer and the command dispatcher.
//!
//! The tokenizer scans the raw invocation tokens left to right. Each cursor
//! position must hold a recognized option name; whether the option consumes a
//! value is decided by lookahead: a following token that is not itself a
//! recognized option name is taken as this option's value. An unrecognized
//! option name yields the distinguished `Error` argument and the scan goes on
//! past it.

use vstd::prelude::*;

use crate::text::spec_parse_usize;
use crate::text::str_eq;
use crate::text::parse_usize;

verus! {

/// The kind of a recognized command-line option; `Error` stands for an
/// unrecognized option name.
#[derive(Debug, Clone, Copy, PartialEq, Eq, Structural)]
pub enum ArgType {
    MinimumLength,
    IncludeNumbers,
    IncludeSpecial,
    IncludeUcase,
    UseWords,
    Overwrite,
    Profile,
    Error,
    ListProfiles,
    ProfileInfo,
    Help,
    NewProfile,
}

/// The typed value supplied with an option: a boolean, a non-negative
/// integer, free text, or nothing at all for a valueless option.
#[derive(Debug, PartialEq)]
pub enum ArgValue {
    Bool(bool),
    Int(usize),
    String(String),
    NoValue,
    Error,
}

/// One tokenized command-line instruction: a kind paired with a typed value,
/// or the distinguished `Error` for an unrecognized option name.
#[derive(Debug, PartialEq)]
pub enum Argument {
    ParsedArgument(ArgType, ArgValue),
    Error,
}

/// Spec-level value of an [`ArgValue`], with text as a sequence of
/// characters.
pub ghost enum ArgValueV {
    Bool(bool),
    Int(usize),
    Text(Seq<char>),
    NoValue,
    Error,
}

/// Spec-level value of an [`Argument`].
pub ghost enum ArgumentV {
    Parsed(ArgType, ArgValueV),
    Error,
}

impl View for ArgValue {
    type V = ArgValueV;

    open spec fn view(&self) -> ArgValueV {
        match self {
            ArgValue::Bool(b) => ArgValueV::Bool(*b),
            ArgValue::Int(n) => ArgValueV::Int(*n),
            ArgValue::String(s) => ArgValueV::Text(s@),
            ArgValue::NoValue => ArgValueV::NoValue,
            ArgValue::Error => ArgValueV::Error,
        }
    }
}

impl View for Argument {
    type V = ArgumentV;

    open spec fn view(&self) -> ArgumentV {
        match self {
            Argument::ParsedArgument(t, v) => ArgumentV::Parsed(*t, v@),
            Argument::Error => ArgumentV::Error,
        }
    }
}

impl DeepView for Argument {
    type V = ArgumentV;

    open spec fn deep_view(&self) -> ArgumentV {
        self.view()
    }
}

/// The fixed set of recognized option names.
pub open spec fn spec_is_arg(s: Seq<char>) -> bool {
    ||| s == "--minlength"@
    ||| s == "--include_nums"@
    ||| s == "--include_spec"@
    ||| s == "--include_ucase"@
    ||| s == "--use_dict_words"@
    ||| s == "--overwrite"@
    ||| s == "--profile"@
    ||| s == "--help"@
    ||| s == "--new_profile"@
    ||| s == "--list_profiles"@
    ||| s == "--profile_info"@
}

/// The kind named by an option token; `Error` for anything outside the
/// recognized set.
pub open spec fn spec_arg_type(s: Seq<char>) -> ArgType {
    if s == "--minlength"@ {
        ArgType::MinimumLength
    } else if s == "--include_nums"@ {
        ArgType::IncludeNumbers
    } else if s == "--include_spec"@ {
        ArgType::IncludeSpecial
    } else if s == "--include_ucase"@ {
        ArgType::IncludeUcase
    } else if s == "--use_dict_words"@ {
        ArgType::UseWords
    } else if s == "--overwrite"@ {
        ArgType::Overwrite
    } else if s == "--profile"@ {
        ArgType::Profile
    } else if s == "--help"@ {
        ArgType::Help
    } else if s == "--new_profile"@ {
        ArgType::NewProfile
    } else if s == "--list_profiles"@ {
        ArgType::ListProfiles
    } else if s == "--profile_info"@ {
        ArgType::ProfileInfo
    } else {
        ArgType::Error
    }
}

/// The typing rule for a raw value token: exactly `"true"` or `"false"` is a
/// boolean, a token denoting a non-negative integer is an integer, an empty
/// token marks a valueless option, and any other token is text.
pub open spec fn spec_arg_value(v: Seq<char>) -> ArgValueV {
    if v == "true"@ {
        ArgValueV::Bool(true)
    } else if v == "false"@ {
        ArgValueV::Bool(false)
    } else if v.len() == 0 {
        ArgValueV::NoValue
    } else if spec_parse_usize(v) is Some {
        ArgValueV::Int(spec_parse_usize(v)->0)
    } else {
        ArgValueV::Text(v)
    }
}

/// The parse of one option token together with its (possibly empty) raw
/// value token.
pub open spec fn spec_parse_single(t: Seq<char>, v: Seq<char>) -> ArgumentV {
    if spec_arg_type(t) == ArgType::Error {
        ArgumentV::Error
    } else {
        ArgumentV::Parsed(spec_arg_type(t), spec_arg_value(v))
    }
}

/// The tokenization of a raw token sequence: the left-to-right scan with
/// value lookahead described at the module level.
pub open spec fn spec_tokenize(toks: Seq<Seq<char>>) -> Seq<ArgumentV>
    decreases toks.len(),
{
    if toks.len() == 0 {
        Seq::empty()
    } else if toks.len() >= 2 && !spec_is_arg(toks[1]) {
        seq![spec_parse_single(toks[0], toks[1])] + spec_tokenize(toks.skip(2))
    } else {
        seq![spec_parse_single(toks[0], Seq::empty())] + spec_tokenize(toks.skip(1))
    }
}

/// Whether a raw token is one of the recognized option names.
pub fn is_arg(input: &str) -> (r: bool)
    ensures
        r == spec_is_arg(input@),
{
    str_eq(input, "--minlength") || str_eq(input, "--include_nums") || str_eq(
        input,
        "--include_spec",
    ) || str_eq(input, "--include_ucase") || str_eq(input, "--use_dict_words") || str_eq(
        input,
        "--overwrite",
    ) || str_eq(input, "--profile") || str_eq(input, "--help") || str_eq(input, "--new_profile")
        || str_eq(input, "--list_profiles") || str_eq(input, "--profile_info")
}

/// Parses one option token and its raw value token into a typed argument.
pub fn parse_single_arg(arg_type: &str, arg_value: &str) -> (r: Argument)
    ensures
        r@ == spec_parse_single(arg_type@, arg_value@),
{
    let parsed_arg_value: ArgValue = if str_eq(arg_value, "true") {
        ArgValue::Bool(true)
    } else if str_eq(arg_value, "false") {
        ArgValue::Bool(false)
    } else if arg_value.unicode_len() == 0 {
        ArgValue::NoValue
    } else {
        match parse_usize(arg_value) {
            Some(parsed_usize) => ArgValue::Int(parsed_usize),
            None => ArgValue::String(arg_value.to_owned()),
        }
    };
    let parsed_arg_type: ArgType = if str_eq(arg_type, "--minlength") {
        ArgType::MinimumLength
    } else if str_eq(arg_type, "--include_nums") {
        ArgType::IncludeNumbers
    } else if str_eq(arg_type, "--include_spec") {
        ArgType::IncludeSpecial
    } else if str_eq(arg_type, "--include_ucase") {
        ArgType::IncludeUcase
    } else if str_eq(arg_type, "--use_dict_words") {
        ArgType::UseWords
    } else if str_eq(arg_type, "--overwrite") {
        ArgType::Overwrite
    } else if str_eq(arg_type, "--profile") {
        ArgType::Profile
    } else if str_eq(arg_type, "--help") {
        ArgType::Help
    } else if str_eq(arg_type, "--new_profile") {
        ArgType::NewProfile
    } else if str_eq(arg_type, "--list_profiles") {
        ArgType::ListProfiles
    } else if str_eq(arg_type, "--profile_info") {
        ArgType::ProfileInfo
    } else {
        ArgType::Error
    };
    if parsed_arg_type == ArgType::Error {
        Argument::Error
    } else {
        Argument::ParsedArgument(parsed_arg_type, parsed_arg_value)
    }
}

/// Tokenizes the whole invocation: scans left to right, deciding by lookahead
/// whether each recognized option consumes the following token as its value.
pub fn parse_args(args: Vec<String>) -> (r: Vec<Argument>)
    ensures
        r.deep_view() == spec_tokenize(args.deep_view()),
{
    let ghost all: Seq<Seq<char>> = args.deep_view();
    let mut arg_idx: usize = 0;
    let mut parsed_args: Vec<Argument> = Vec::new();
    proof {
        assert(all.skip(0) =~= all);
        assert(parsed_args.deep_view() + spec_tokenize(all) =~= spec_tokenize(all));
    }
    while arg_idx < args.len()
        invariant
            arg_idx <= args.len(),
            all == args.deep_view(),
            all.len() == args.len(),
            spec_tokenize(all) == parsed_args.deep_view() + spec_tokenize(
                all.skip(arg_idx as int),
            ),
        decreases args.len() - arg_idx,
    {
        let ghost before: Seq<ArgumentV> = parsed_args.deep_view();
        let ghost rest: Seq<Seq<char>> = all.skip(arg_idx as int);
        proof {
            assert(rest.len() == all.len() - arg_idx);
            assert(rest[0] == all[arg_idx as int]);
        }
        let mut inc: usize = 1;
        let arg_type: &String = &args[arg_idx];
        proof {
            assert(arg_type@ == all[arg_idx as int]);
        }
        if arg_idx < args.len() - 1 {
            proof {
                assert(rest[1] == all[arg_idx as int + 1]);
            }
            if !is_arg(args[arg_idx + 1].as_str()) {
                inc = 2;
                let arg_val: &String = &args[arg_idx + 1];
                let parsed_argument = parse_single_arg(arg_type.as_str(), arg_val.as_str());
                parsed_args.push(parsed_argument);
                proof {
                    assert(rest.skip(2) =~= all.skip(arg_idx + 2));
                    assert(spec_tokenize(rest) == seq![spec_parse_single(rest[0], rest[1])]
                        + spec_tokenize(all.skip(arg_idx + 2)));
                    assert(parsed_args.deep_view() =~= before.push(parsed_argument.deep_view()));
                    assert(spec_tokenize(all) =~= parsed_args.deep_view() + spec_tokenize(
                        all.skip(arg_idx + 2),
                    ));
                }
            } else {
                let parsed_argument = parse_single_arg(arg_type.as_str(), "");
                parsed_args.push(parsed_argument);
                proof {
                    reveal_strlit("");
                    assert(""@ =~= Seq::<char>::empty());
                    assert(rest.skip(1) =~= all.skip(arg_idx + 1));
                    assert(spec_tokenize(rest) == seq![
                        spec_parse_single(rest[0], Seq::empty()),
                    ] + spec_tokenize(all.skip(arg_idx + 1)));
                    assert(parsed_args.deep_view() =~= before.push(parsed_argument.deep_view()));
                    assert(spec_tokenize(all) =~= parsed_args.deep_view() + spec_tokenize(
                        all.skip(arg_idx + 1),
                    ));
                }
            }
        } else {
            let parsed_argument = parse_single_arg(arg_type.as_str(), "");
            parsed_args.push(parsed_argument);
            proof {
                reveal_strlit("");
                assert(""@ =~= Seq::<char>::empty());
                assert(rest.len() == 1);
                assert(rest.skip(1) =~= all.skip(arg_idx + 1));
                assert(spec_tokenize(rest) == seq![spec_parse_single(rest[0], Seq::empty())]
                    + spec_tokenize(all.skip(arg_idx + 1)));
                assert(parsed_args.deep_view() =~= before.push(parsed_argument.deep_view()));
                assert(spec_tokenize(all) =~= parsed_args.deep_view() + spec_tokenize(
                    all.skip(arg_idx + 1),
                ));
            }
        }
        arg_idx = arg_idx + inc;
    }
    proof {
        assert(all.skip(arg_idx as int) =~= Seq::<Seq<char>>::empty());
        assert(spec_tokenize(all) =~= parsed_args.deep_view());
    }
    parsed_args
}

/// The resolved intent of one invocation: the first matching high-priority
/// instruction wins, and password generation is the default.
#[derive(Debug, PartialEq)]
pub enum Command {
    Help,
    ListProfiles,
    ShowProfileInfo(String),
    Generate,
}

/// Spec-level value of a [`Command`].
pub ghost enum CommandV {
    Help,
    ListProfiles,
    ShowProfileInfo(Seq<char>),
    Generate,
}

impl View for Command {
    type V = CommandV;

    open spec fn view(&self) -> CommandV {
        match self {
            Command::Help => CommandV::Help,
            Command::ListProfiles => CommandV::ListProfiles,
            Command::ShowProfileInfo(name) => CommandV::ShowProfileInfo(name@),
            Command::Generate => CommandV::Generate,
        }
    }
}

/// Whether the tokenized sequence holds a help instruction.
pub open spec fn spec_has_help(opts: Seq<ArgumentV>) -> bool
    decreases opts.len(),
{
    if opts.len() == 0 {
        false
    } else {
        opts[0] matches ArgumentV::Parsed(ArgType::Help, _) || spec_has_help(opts.skip(1))
    }
}

/// Whether the tokenized sequence holds a list-profiles instruction.
pub open spec fn spec_has_list_profiles(opts: Seq<ArgumentV>) -> bool
    decreases opts.len(),
{
    if opts.len() == 0 {
        false
    } else {
        opts[0] matches ArgumentV::Parsed(ArgType::ListProfiles, _) || spec_has_list_profiles(
            opts.skip(1),
        )
    }
}

/// The name carried by the first text-valued profile-info instruction, if
/// any.
pub open spec fn spec_first_profile_info(opts: Seq<ArgumentV>) -> Option<Seq<char>>
    decreases opts.len(),
{
    if opts.len() == 0 {
        None
    } else {
        match opts[0] {
            ArgumentV::Parsed(ArgType::ProfileInfo, ArgValueV::Text(name)) => Some(name),
            _ => spec_first_profile_info(opts.skip(1)),
        }
    }
}

/// The dispatch rule: help outranks listing the profiles, which outranks
/// showing one profile; with none of the three, the run generates a
/// password.
pub open spec fn spec_dispatch(opts: Seq<ArgumentV>) -> CommandV {
    if spec_has_help(opts) {
        CommandV::Help
    } else if spec_has_list_profiles(opts) {
        CommandV::ListProfiles
    } else if spec_first_profile_info(opts) is Some {
        CommandV::ShowProfileInfo(spec_first_profile_info(opts)->0)
    } else {
        CommandV::Generate
    }
}

/// Inspects the tokenized sequence once and routes the invocation, exactly
/// as [`spec_dispatch`] describes.
pub fn dispatch(args: &Vec<Argument>) -> (c: Command)
    ensures
        c@ == spec_dispatch(args.deep_view()),
{
    let ghost all: Seq<ArgumentV> = args.deep_view();
    let mut has_help: bool = false;
    let mut has_list: bool = false;
    let mut first_info: Option<String> = None;
    let mut i: usize = args.len();
    proof {
        assert(all.skip(i as int) =~= Seq::<ArgumentV>::empty());
    }
    while i > 0
        invariant
            i <= args.len(),
            all == args.deep_view(),
            all.len() == args.len(),
            has_help == spec_has_help(all.skip(i as int)),
            has_list == spec_has_list_profiles(all.skip(i as int)),
            (match first_info {
                Some(ref name) => spec_first_profile_info(all.skip(i as int)) == Some(name@),
                None => spec_first_profile_info(all.skip(i as int)) is None,
            }),
        decreases i,
    {
        i = i - 1;
        let ghost rest: Seq<ArgumentV> = all.skip(i as int);
        proof {
            assert(rest[0] == all[i as int]);
            assert(rest.skip(1) =~= all.skip(i as int + 1));
        }
        match &args[i] {
            Argument::ParsedArgument(ArgType::Help, _) => {
                has_help = true;
            },
            Argument::ParsedArgument(ArgType::ListProfiles, _) => {
                has_list = true;
            },
            Argument::ParsedArgument(ArgType::ProfileInfo, ArgValue::String(name)) => {
                first_info = Some(name.clone());
            },
            _ => {},
        }
    }
    proof {
        assert(all.skip(0) =~= all);
    }
    if has_help {
        Command::Help
    } else if has_list {
        Command::ListProfiles
    } else {
        match first_info {
            Some(name) => Command::ShowProfileInfo(name),
            None => Command::Generate,
        }
    }
}

/// The value paired with the first option of the given kind, if any.
pub open spec fn spec_lookup_value(opts: Seq<ArgumentV>, kind: ArgType) -> Option<ArgValueV>
    decreases opts.len(),
{
    if opts.len() == 0 {
        None
    } else {
        match opts[0] {
            ArgumentV::Parsed(t, v) => if t == kind {
                Some(v)
            } else {
                spec_lookup_value(opts.skip(1), kind)
            },
            ArgumentV::Error => spec_lookup_value(opts.skip(1), kind),
        }
    }
}

/// The raw token sequence of consecutive flag/value pairs.
pub open spec fn flatten_pairs(pairs: Seq<(Seq<char>, Seq<char>)>) -> Seq<Seq<char>>
    decreases pairs.len(),
{
    if pairs.len() == 0 {
        Seq::empty()
    } else {
        seq![pairs[0].0, pairs[0].1] + flatten_pairs(pairs.skip(1))
    }
}

/// Law: tokenizing any sequence of recognized flags, each followed by a
/// value token that is neither empty nor itself a recognized flag, yields
/// one parsed option per pair, in input order, each carrying its flag's
/// kind and its value's typing.
pub proof fn lemma_tokenize_pairs(pairs: Seq<(Seq<char>, Seq<char>)>)
    requires
        forall|i: int|
            0 <= i < pairs.len() ==> spec_is_arg(#[trigger] pairs[i].0) && !spec_is_arg(
                pairs[i].1,
            ) && pairs[i].1.len() > 0,
    ensures
        spec_tokenize(flatten_pairs(pairs)).len() == pairs.len(),
        forall|i: int|
            0 <= i < pairs.len() ==> #[trigger] spec_tokenize(flatten_pairs(pairs))[i]
                == ArgumentV::Parsed(spec_arg_type(pairs[i].0), spec_arg_value(pairs[i].1)),
    decreases pairs.len(),
{
    if pairs.len() > 0 {
        let toks = flatten_pairs(pairs);
        assert(toks[0] == pairs[0].0);
        assert(toks[1] == pairs[0].1);
        assert(toks.skip(2) =~= flatten_pairs(pairs.skip(1)));
        lemma_tokenize_pairs(pairs.skip(1));
        assert(spec_tokenize(toks) == seq![spec_parse_single(pairs[0].0, pairs[0].1)]
            + spec_tokenize(flatten_pairs(pairs.skip(1))));
        assert forall|i: int| 0 <= i < pairs.len() implies #[trigger] spec_tokenize(
            flatten_pairs(pairs),
        )[i] == ArgumentV::Parsed(spec_arg_type(pairs[i].0), spec_arg_value(pairs[i].1)) by {
            if i > 0 {
                assert(spec_tokenize(toks)[i] == spec_tokenize(flatten_pairs(pairs.skip(1)))[i
                    - 1]);
                assert(pairs.skip(1)[i - 1] == pairs[i]);
            }
        }
    }
}

/// Law: tokenizing one recognized flag together with a value token that is
/// neither empty nor itself a recognized flag yields exactly one parsed
/// option, whose kind names the flag; looking the sequence up by that kind
/// recovers the typed value.
pub proof fn lemma_flag_value_round_trip(flag: Seq<char>, value: Seq<char>)
    requires
        spec_is_arg(flag),
        value.len() > 0,
        !spec_is_arg(value),
    ensures
        spec_arg_type(flag) != ArgType::Error,
        spec_tokenize(seq![flag, value]) == seq![
            ArgumentV::Parsed(spec_arg_type(flag), spec_arg_value(value)),
        ],
        spec_lookup_value(spec_tokenize(seq![flag, value]), spec_arg_type(flag)) == Some(
            spec_arg_value(value),
        ),
{
    let toks = seq![flag, value];
    assert(toks[0] == flag && toks[1] == value);
    assert(toks.skip(2) =~= Seq::<Seq<char>>::empty());
    assert(spec_tokenize(Seq::<Seq<char>>::empty()) == Seq::<ArgumentV>::empty());
    assert(spec_parse_single(flag, value) == ArgumentV::Parsed(
        spec_arg_type(flag),
        spec_arg_value(value),
    ));
    assert(spec_tokenize(toks) =~= seq![
        ArgumentV::Parsed(spec_arg_type(flag), spec_arg_value(value)),
    ]);
}

} // verus!
