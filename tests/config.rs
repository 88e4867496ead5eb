use synkronizer::config::{parse_line, ConfigError, Setting, CONFIG_DESTINATION, HOME_DESTINATION};
use synkronizer::sync::ConflictResolver;
use synkronizer::utils::file_system::expand_tilde;
use synkronizer::App;

fn lines(text: &[&str]) -> Vec<String> {
    text.iter().map(|l| l.to_string()).collect()
}

fn config_files() -> Vec<Vec<String>> {
    vec![
        lines(&["home = /home/user/dotfiles/home", "config = /home/user/dotfiles/config"]),
        lines(&[
            "# where the files are",
            "",
            "home = /home/user/dotfiles/home",
            "config = /home/user/dotfiles/config",
            "conflict_resolver = prompt",
        ]),
        lines(&[
            "   HOME   =   /home/user/dotfiles/home   ",
            "\tconfig=/home/user/dotfiles/config",
            "conflict_resolver = do_nothing",
        ]),
        lines(&[
            "config = /home/user/dotfiles/config",
            "home = /home/user/dotfiles/home",
            "Conflict_Resolver = OVERWRITE",
        ]),
        lines(&[
            "home = /somewhere/else",
            "home = /home/user/dotfiles/home",
            "config = /home/user/dotfiles/config",
            "conflict_resolver = overwrite",
            "conflict_resolver = Do_Nothing",
        ]),
        lines(&[
            "#home = /wrong",
            "home = /Home/User/Dotfiles/Home",
            "   # config = /wrong",
            "config = /home/user/dotfiles/config",
            "conflict_resolver = do_nothing",
        ]),
    ]
}

#[test]
fn tests_file_is_correct() {
    let files = config_files();
    let base_config = App::from_config_file(&files[0]).unwrap();

    let expected_resolvers = vec![
        ConflictResolver::Prompt,
        ConflictResolver::Prompt,
        ConflictResolver::DoNothing,
        ConflictResolver::Overwrite,
        ConflictResolver::DoNothing,
        ConflictResolver::DoNothing,
    ];
    let mut actual_resolvers = Vec::with_capacity(6);
    actual_resolvers.push(base_config.resolver);

    for i in 1..=5 {
        let x = App::from_config_file(&files[i]).unwrap();
        actual_resolvers.push(x.resolver);

        assert_eq!(base_config.home, x.home);
        assert_eq!(base_config.config, x.config);
    }

    assert_eq!(expected_resolvers, actual_resolvers);
}

#[test]
fn tests_parses_whitespace_path() {
    let file = lines(&[
        "home =   /home/user/my dotfiles   ",
        "  config   = /home/user/my dotfiles",
    ]);
    let x = App::from_config_file(&file).unwrap();

    assert_eq!(x.config, x.home);
    assert_eq!(x.home, "/home/user/my dotfiles");
    assert_eq!(x.resolver, ConflictResolver::Prompt);
}

#[test]
fn tests_uknown_keyword() {
    let file = lines(&["home = /a", "config = /b", "colour = blue"]);
    assert_eq!(App::from_config_file(&file).unwrap_err(), ConfigError::UnknownKeyword);
}

#[test]
fn tests_missing_equals_sign() {
    let file = lines(&["home = /a", "config /b"]);
    assert_eq!(App::from_config_file(&file).unwrap_err(), ConfigError::MissingEquals);
}

#[test]
fn tests_no_config() {
    let file = lines(&["home = /a"]);
    assert_eq!(App::from_config_file(&file).unwrap_err(), ConfigError::NoConfig);
}

#[test]
fn tests_no_home() {
    let file = lines(&["config = /b", "conflict_resolver = prompt"]);
    assert_eq!(App::from_config_file(&file).unwrap_err(), ConfigError::NoHome);
}

#[test]
fn tests_wrong_resolver_option() {
    let file = lines(&["home = /a", "config = /b", "conflict_resolver = bogus"]);
    assert_eq!(App::from_config_file(&file).unwrap_err(), ConfigError::InvalidResolver);
}

#[test]
fn missing_key_and_value_are_refused() {
    assert_eq!(parse_line("= /a").unwrap_err(), ConfigError::MissingKey);
    assert_eq!(parse_line("home =   ").unwrap_err(), ConfigError::MissingValue);
}

#[test]
fn first_invalid_line_decides_the_error() {
    let file = lines(&["colour = blue", "conflict_resolver = bogus", "home = /a", "config = /b"]);
    assert_eq!(App::from_config_file(&file).unwrap_err(), ConfigError::UnknownKeyword);
    let file = lines(&["home = /a", "conflict_resolver = bogus", "config /b"]);
    assert_eq!(App::from_config_file(&file).unwrap_err(), ConfigError::InvalidResolver);
}

#[test]
fn blank_lines_and_comments_say_nothing() {
    assert!(parse_line("").unwrap().is_none());
    assert!(parse_line("   \t ").unwrap().is_none());
    assert!(parse_line("  # home = /a").unwrap().is_none());
}

#[test]
fn value_is_split_at_the_first_equals_sign() {
    match parse_line(" Home = /a=b ").unwrap() {
        Some(Setting::Home(h)) => assert_eq!(h, "/a=b"),
        other => panic!("unexpected {:?}", other),
    }
}

#[test]
fn paths_are_lowercased() {
    match parse_line("config = /Home/Me").unwrap() {
        Some(Setting::Config(c)) => assert_eq!(c, "/home/me"),
        other => panic!("unexpected {:?}", other),
    }
}

#[test]
fn from_pair_sets_each_key() {
    assert!(matches!(Setting::from_pair("home", "/a"), Ok(Setting::Home(h)) if h == "/a"));
    assert!(matches!(Setting::from_pair("config", "/b"), Ok(Setting::Config(c)) if c == "/b"));
    assert!(matches!(
        Setting::from_pair("conflict_resolver", "overwrite"),
        Ok(Setting::Resolver(ConflictResolver::Overwrite))
    ));
    assert!(matches!(Setting::from_pair("Home", "/a"), Err(ConfigError::UnknownKeyword)));
}

#[test]
fn policy_keywords() {
    assert_eq!(ConflictResolver::from_str("prompt"), Ok(ConflictResolver::Prompt));
    assert_eq!(ConflictResolver::from_str("OverWrite"), Ok(ConflictResolver::Overwrite));
    assert_eq!(ConflictResolver::from_str("DO_NOTHING"), Ok(ConflictResolver::DoNothing));
    assert_eq!(ConflictResolver::from_str("bogus"), Err(()));
    assert_eq!(ConflictResolver::from_str(" prompt"), Err(()));
    assert_eq!(ConflictResolver::from_keyword("do_nothing"), Some(ConflictResolver::DoNothing));
    assert_eq!(ConflictResolver::from_keyword("Prompt"), None);
}

#[test]
fn file_system_home_is_correct() {
    assert_eq!(expand_tilde("~", "/home/andri"), "/home/andri");
}

#[test]
fn tilde_expands_only_at_the_start() {
    assert_eq!(expand_tilde(CONFIG_DESTINATION, "/home/me"), "/home/me/.config");
    assert_eq!(expand_tilde(HOME_DESTINATION, "/root"), "/root");
    assert_eq!(expand_tilde("/etc/~x", "/home/me"), "/etc/~x");
    assert_eq!(expand_tilde("", "/home/me"), "");
}

#[test]
fn sync_home_and_config_use_their_sources() {
    let app = App::from_config_file(&lines(&[
        "home = /repo/home",
        "config = /repo/config",
        "conflict_resolver = overwrite",
    ]))
    .unwrap();
    let home = app.sync_home("/home/me");
    assert_eq!(home.source, "/repo/home");
    assert_eq!(home.dir, "/home/me");
    assert_eq!(home.resolver, ConflictResolver::Overwrite);
    let config = app.sync_config("/home/me/.config");
    assert_eq!(config.source, "/repo/config");
    assert_eq!(config.dir, "/home/me/.config");
    let link = config.link_for("nvim");
    assert_eq!(link.src, "/repo/config/nvim");
    assert_eq!(link.target, "/home/me/.config/nvim");
}
