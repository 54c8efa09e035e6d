use passgen::cli::is_arg;
use passgen::cli::parse_args;
use passgen::cli::parse_single_arg;
use passgen::cli::dispatch;
use passgen::cli::ArgType;
use passgen::cli::ArgValue;
use passgen::cli::Argument;
use passgen::cli::Command;

#[test]
fn detect_help_argument() {
    let help_arg = parse_single_arg("--help", "");
    assert_eq!(help_arg, Argument::ParsedArgument(ArgType::Help, ArgValue::NoValue));
    let args_vec = vec![String::from("--help")];
    let parsed_help_arg_vec = parse_args(args_vec);
    assert_eq!(vec![help_arg], parsed_help_arg_vec);
}

#[test]
fn parse_single_argument() {
    let min_length_arg = parse_single_arg("--minlength", "8");
    assert_eq!(min_length_arg, Argument::ParsedArgument(ArgType::MinimumLength, ArgValue::Int(8)));
    let dict_words_arg = parse_single_arg("--use_dict_words", "true");
    assert_eq!(dict_words_arg, Argument::ParsedArgument(ArgType::UseWords, ArgValue::Bool(true)));
}

#[test]
fn parse_args_from_vec() {
    let args_vec = vec![String::from("--minlength"), String::from("8")];
    let parsed_args = parse_args(args_vec);
    let correct_parsed_args =
        vec![Argument::ParsedArgument(ArgType::MinimumLength, ArgValue::Int(8))];
    assert_eq!(parsed_args, correct_parsed_args);
}

#[test]
fn recognizes_exactly_the_option_names() {
    assert!(is_arg("--minlength"));
    assert!(is_arg("--include_nums"));
    assert!(is_arg("--include_spec"));
    assert!(is_arg("--include_ucase"));
    assert!(is_arg("--use_dict_words"));
    assert!(is_arg("--overwrite"));
    assert!(is_arg("--profile"));
    assert!(is_arg("--help"));
    assert!(is_arg("--new_profile"));
    assert!(is_arg("--list_profiles"));
    assert!(is_arg("--profile_info"));
    assert!(!is_arg("--minlength "));
    assert!(!is_arg("minlength"));
    assert!(!is_arg(""));
    assert!(!is_arg("--unknown"));
}

#[test]
fn two_options_keep_input_order() {
    let args_vec = vec![
        String::from("--include_ucase"),
        String::from("true"),
        String::from("--minlength"),
        String::from("10"),
    ];
    let parsed_args = parse_args(args_vec);
    assert_eq!(
        parsed_args,
        vec![
            Argument::ParsedArgument(ArgType::IncludeUcase, ArgValue::Bool(true)),
            Argument::ParsedArgument(ArgType::MinimumLength, ArgValue::Int(10)),
        ]
    );
}

#[test]
fn valueless_option_between_valued_options() {
    let args_vec = vec![
        String::from("--help"),
        String::from("--minlength"),
        String::from("12"),
    ];
    let parsed_args = parse_args(args_vec);
    assert_eq!(
        parsed_args,
        vec![
            Argument::ParsedArgument(ArgType::Help, ArgValue::NoValue),
            Argument::ParsedArgument(ArgType::MinimumLength, ArgValue::Int(12)),
        ]
    );
}

#[test]
fn unrecognized_option_yields_error_and_scan_goes_on() {
    let args_vec = vec![
        String::from("--bogus"),
        String::from("--minlength"),
        String::from("9"),
    ];
    let parsed_args = parse_args(args_vec);
    assert_eq!(
        parsed_args,
        vec![
            Argument::Error,
            Argument::ParsedArgument(ArgType::MinimumLength, ArgValue::Int(9)),
        ]
    );
}

#[test]
fn value_typing_rules() {
    assert_eq!(
        parse_single_arg("--include_nums", "false"),
        Argument::ParsedArgument(ArgType::IncludeNumbers, ArgValue::Bool(false))
    );
    assert_eq!(
        parse_single_arg("--profile", "alice"),
        Argument::ParsedArgument(ArgType::Profile, ArgValue::String(String::from("alice")))
    );
    assert_eq!(
        parse_single_arg("--minlength", "008"),
        Argument::ParsedArgument(ArgType::MinimumLength, ArgValue::Int(8))
    );
    assert_eq!(
        parse_single_arg("--minlength", "99999999999999999999999999999"),
        Argument::ParsedArgument(
            ArgType::MinimumLength,
            ArgValue::String(String::from("99999999999999999999999999999"))
        )
    );
    assert_eq!(parse_single_arg("--nonsense", "4"), Argument::Error);
}

#[test]
fn dispatch_prefers_help_then_list_then_info() {
    let args = parse_args(vec![
        String::from("--profile_info"),
        String::from("alice"),
        String::from("--list_profiles"),
        String::from("--help"),
    ]);
    assert_eq!(dispatch(&args), Command::Help);

    let args = parse_args(vec![
        String::from("--profile_info"),
        String::from("alice"),
        String::from("--list_profiles"),
    ]);
    assert_eq!(dispatch(&args), Command::ListProfiles);

    let args = parse_args(vec![String::from("--profile_info"), String::from("alice")]);
    assert_eq!(dispatch(&args), Command::ShowProfileInfo(String::from("alice")));

    let args = parse_args(vec![String::from("--minlength"), String::from("10")]);
    assert_eq!(dispatch(&args), Command::Generate);

    let args = parse_args(Vec::new());
    assert_eq!(dispatch(&args), Command::Generate);
}

#[test]
fn dispatch_ignores_profile_info_without_text() {
    let args = parse_args(vec![String::from("--profile_info")]);
    assert_eq!(dispatch(&args), Command::Generate);
}
