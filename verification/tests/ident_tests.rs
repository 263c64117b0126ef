use rumblebot::ident::Lang;
use rumblebot::ident::ParseError;
use rumblebot::ident::RobotId;
use rumblebot::ident::parse_published_slug;
use rumblebot::ident::robot_name_from_path;
use rumblebot::ident::extension_of;
use rumblebot::ident::file_stem_of;
use rumblebot::ident::join_space;
use rumblebot::ident::str_eq;

#[test]
fn local_file_token_resolves_to_its_language() {
    match RobotId::parse("examples/bot.py") {
        Ok(RobotId::Local { source, lang }) => {
            assert_eq!(source, "examples/bot.py");
            assert!(matches!(lang, Lang::Python));
        }
        other => panic!("unexpected resolution: {:?}", other),
    }
}

#[test]
fn bare_slug_resolves_to_published() {
    match RobotId::parse("alice/mybot") {
        Ok(RobotId::Published { user, robot }) => {
            assert_eq!(user, "alice");
            assert_eq!(robot, "mybot");
        }
        other => panic!("unexpected resolution: {:?}", other),
    }
}

#[test]
fn explicit_file_scheme_resolves_path() {
    match RobotId::parse("file:dir/robot.js") {
        Ok(RobotId::Local { source, lang }) => {
            assert_eq!(source, "dir/robot.js");
            assert!(matches!(lang, Lang::Javascript));
        }
        other => panic!("unexpected resolution: {:?}", other),
    }
    assert!(matches!(
        RobotId::parse("local:dir/robot.mjs"),
        Ok(RobotId::Local { lang: Lang::Javascript, .. })
    ));
}

#[test]
fn explicit_published_scheme_requires_full_slug() {
    match RobotId::parse("published:alice/mybot") {
        Ok(RobotId::Published { user, robot }) => {
            assert_eq!(user, "alice");
            assert_eq!(robot, "mybot");
        }
        other => panic!("unexpected resolution: {:?}", other),
    }
    match RobotId::parse("published:justonename") {
        Err(ParseError::InvalidPublished { token }) => assert_eq!(token, "justonename"),
        other => panic!("unexpected resolution: {:?}", other),
    }
}

#[test]
fn command_scheme_splits_shell_words() {
    match RobotId::parse("command:python -u \"my bot.py\"") {
        Ok(RobotId::Command { command, args }) => {
            assert_eq!(command, "python");
            assert_eq!(args, vec!["-u".to_string(), "my bot.py".to_string()]);
        }
        other => panic!("unexpected resolution: {:?}", other),
    }
}

#[test]
fn command_scheme_needs_a_word() {
    assert!(matches!(
        RobotId::parse("command:"),
        Err(ParseError::EmptyCommand)
    ));
}

#[test]
fn command_scheme_rejects_unmatched_quote() {
    match RobotId::parse("command:'unterminated") {
        Err(ParseError::ShellParse { content }) => assert_eq!(content, "'unterminated"),
        other => panic!("unexpected resolution: {:?}", other),
    }
}

#[test]
fn localrunner_scheme_takes_trailing_source() {
    match RobotId::parse("localrunner:./runner.wasm --fast bot.py") {
        Ok(RobotId::LocalRunner { runner, runner_args, source }) => {
            assert_eq!(runner, "./runner.wasm");
            assert_eq!(runner_args, vec!["--fast".to_string()]);
            assert_eq!(source, "bot.py");
        }
        other => panic!("unexpected resolution: {:?}", other),
    }
}

#[test]
fn localrunner_scheme_needs_a_source() {
    assert!(matches!(
        RobotId::parse("localrunner:./runner.wasm"),
        Err(ParseError::MissingRunnerSource)
    ));
    assert!(matches!(
        RobotId::parse("localrunner:"),
        Err(ParseError::EmptyCommand)
    ));
}

#[test]
fn inline_scheme_splits_language_and_source() {
    match RobotId::parse("inline:Python;print('hi;there')") {
        Ok(RobotId::Inline { lang, source }) => {
            assert!(matches!(lang, Lang::Python));
            assert_eq!(source, "print('hi;there')");
        }
        other => panic!("unexpected resolution: {:?}", other),
    }
}

#[test]
fn inline_scheme_needs_language() {
    assert!(matches!(
        RobotId::parse("inline:print('hi')"),
        Err(ParseError::MissingInlineLanguage)
    ));
    match RobotId::parse("inline:Lua;print('hi')") {
        Err(ParseError::InvalidInlineLanguage { lang }) => assert_eq!(lang, "Lua"),
        other => panic!("unexpected resolution: {:?}", other),
    }
}

#[test]
fn unknown_scheme_is_named() {
    match RobotId::parse("weird:thing") {
        Err(ParseError::UnknownScheme { scheme }) => assert_eq!(scheme, "weird"),
        other => panic!("unexpected resolution: {:?}", other),
    }
}

#[test]
fn unknown_extension_is_named() {
    match RobotId::parse("bot.lua") {
        Err(ParseError::UnknownExtension { ext }) => assert_eq!(ext, "lua"),
        other => panic!("unexpected resolution: {:?}", other),
    }
}

#[test]
fn missing_extension_is_fatal() {
    match RobotId::parse("botfile") {
        Err(ParseError::MissingExtension { path }) => assert_eq!(path, "botfile"),
        other => panic!("unexpected resolution: {:?}", other),
    }
}

#[test]
fn leading_dot_alone_is_no_extension() {
    assert!(matches!(
        RobotId::parse(".py"),
        Err(ParseError::MissingExtension { .. })
    ));
}

#[test]
fn slug_with_bad_characters_falls_back_to_path() {
    assert!(matches!(
        RobotId::parse("alice/my bot"),
        Err(ParseError::MissingExtension { .. })
    ));
    assert!(matches!(
        RobotId::parse("a/b/c"),
        Err(ParseError::MissingExtension { .. })
    ));
}

#[test]
fn valid_ident_accepts_the_identifier_characters() {
    assert!(RobotId::valid_ident("a1_-Z"));
    assert!(!RobotId::valid_ident(""));
    assert!(!RobotId::valid_ident("has space"));
    assert!(!RobotId::valid_ident("sla/sh"));
    assert!(!RobotId::valid_ident("uni\u{e9}code"));
}

#[test]
fn published_slug_shapes() {
    assert_eq!(
        parse_published_slug("alice/mybot"),
        Some((Some("alice".to_string()), "mybot".to_string()))
    );
    assert_eq!(parse_published_slug("mybot"), Some((None, "mybot".to_string())));
    assert_eq!(parse_published_slug("a/b/c"), None);
    assert_eq!(parse_published_slug("a/"), None);
    assert_eq!(parse_published_slug("/b"), None);
    assert_eq!(parse_published_slug(""), None);
}

#[test]
fn display_id_shows_each_backend() {
    let (tag, body) = RobotId::parse("alice/mybot").unwrap().display_id();
    assert_eq!((tag.as_str(), body.as_str()), ("alice", "mybot"));

    let (tag, body) = RobotId::parse("examples/bot.py").unwrap().display_id();
    assert_eq!((tag.as_str(), body.as_str()), (".local", "examples/bot.py"));

    let (tag, body) = RobotId::parse("command:python -u bot.py").unwrap().display_id();
    assert_eq!((tag.as_str(), body.as_str()), (".command", "python -u bot.py"));

    let (tag, body) = RobotId::parse("localrunner:r.wasm --fast bot.py")
        .unwrap()
        .display_id();
    assert_eq!((tag.as_str(), body.as_str()), (".localrunner", "r.wasm --fast bot.py"));

    let (tag, body) = RobotId::parse("inline:Python;pass").unwrap().display_id();
    assert_eq!((tag.as_str(), body.as_str()), (".inline", "."));
}

#[test]
fn robot_names_come_from_file_stems() {
    assert_eq!(robot_name_from_path("examples/bot.py").unwrap(), "bot");
    assert_eq!(robot_name_from_path("bot.py").unwrap(), "bot");
    assert!(matches!(
        robot_name_from_path("examples/my bot.py"),
        Err(ParseError::InvalidRobotName { .. })
    ));
    assert!(matches!(
        robot_name_from_path("dir/"),
        Err(ParseError::InvalidRobotName { .. })
    ));
}

#[test]
fn extensions_and_stems_follow_unix_rules() {
    assert_eq!(extension_of("a/b/c.tar.gz"), Some("gz"));
    assert_eq!(extension_of("dir.d/file"), None);
    assert_eq!(extension_of("foo."), Some(""));
    assert_eq!(extension_of(".hidden"), None);
    assert_eq!(file_stem_of("a/b/c.tar.gz"), "c.tar");
    assert_eq!(file_stem_of(".hidden"), ".hidden");
    assert_eq!(file_stem_of("dir/name.py"), "name");
}

#[test]
fn languages_map_to_extensions_and_names() {
    assert!(matches!(Lang::from_ext("py"), Some(Lang::Python)));
    assert!(matches!(Lang::from_ext("js"), Some(Lang::Javascript)));
    assert!(matches!(Lang::from_ext("ejs"), Some(Lang::Javascript)));
    assert!(matches!(Lang::from_ext("mjs"), Some(Lang::Javascript)));
    assert!(Lang::from_ext("rs").is_none());
    assert_eq!(Lang::Python.ext(), "py");
    assert_eq!(Lang::Javascript.ext(), "js");
    assert!(matches!(Lang::from_name("Python"), Some(Lang::Python)));
    assert!(matches!(Lang::from_name("Javascript"), Some(Lang::Javascript)));
    assert!(Lang::from_name("python").is_none());
}

#[test]
fn string_equality_is_by_characters() {
    assert!(str_eq("", ""));
    assert!(str_eq("caf\u{e9}", "caf\u{e9}"));
    assert!(!str_eq("a", "ab"));
    assert!(!str_eq("caf\u{e9}", "cafe"));
}

#[test]
fn join_space_orders_words() {
    assert_eq!(join_space(&vec![]), "");
    assert_eq!(join_space(&vec!["one".to_string()]), "one");
    assert_eq!(
        join_space(&vec!["a".to_string(), "b c".to_string(), "d".to_string()]),
        "a b c d"
    );
}
