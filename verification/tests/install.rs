use sequent_gateway::configure::install::{
    answer_accepts, archive_boards_relative_path, configure_board_search_paths,
    install_board_source_candidates, join_path, path_components, preferred_download_destination,
    install_step, relaunch_args, same_path, service_unit, InstallStep, INSTALL_BOARDS_DIR,
};
use sequent_gateway::text::text_less;
use std::path::Path;

#[test]
fn components_match_std_path() {
    for p in ["boards", "boards/", "./boards", "/etc//x/./y/", "a/../b", ".", "", "/", "./."] {
        let want: Vec<String> = Path::new(p)
            .iter()
            .map(|c| c.to_string_lossy().into_owned())
            .collect();
        assert_eq!(path_components(p), want, "{p}");
    }
    assert!(same_path("boards/", "boards"));
    assert!(!same_path("./boards", "boards"));
}

#[test]
fn archive_entries_map_below_boards() {
    assert_eq!(
        archive_boards_relative_path("SequentTCP-main/boards/megaind.toml"),
        Some("megaind.toml".to_string())
    );
    assert_eq!(
        archive_boards_relative_path("SequentTCP-main/boards/experimental/x.toml"),
        Some("experimental/x.toml".to_string())
    );
    assert_eq!(
        archive_boards_relative_path("SequentTCP-main/boards/experimental/"),
        Some("experimental".to_string())
    );
    assert_eq!(archive_boards_relative_path("SequentTCP-main/boards/"), None);
    assert_eq!(archive_boards_relative_path("SequentTCP-main/README.md"), None);
}

#[test]
fn search_paths_are_unique() {
    assert_eq!(
        configure_board_search_paths("boards/"),
        vec!["boards/".to_string(), INSTALL_BOARDS_DIR.to_string()]
    );
    assert_eq!(
        configure_board_search_paths("/opt/b"),
        vec!["/opt/b".to_string(), "boards".to_string(), INSTALL_BOARDS_DIR.to_string()]
    );
    assert_eq!(
        install_board_source_candidates("boards", Some("/usr/local/bin")),
        vec!["boards".to_string(), "/usr/local/bin/boards".to_string()]
    );
    assert_eq!(install_board_source_candidates("x", None), vec!["x".to_string(), "boards".to_string()]);
}

#[test]
fn download_destination_rules() {
    assert_eq!(preferred_download_destination("/srv/boards", false), "/srv/boards");
    assert_eq!(preferred_download_destination("boards", true), INSTALL_BOARDS_DIR);
    assert_eq!(preferred_download_destination("boards", false), "boards");
}

#[test]
fn join_follows_path_join() {
    for (b, n) in [("", "boards"), ("/usr/bin", "boards"), ("/usr/bin/", "boards"), ("/", "x")] {
        assert_eq!(join_path(b, n), Path::new(b).join(n).to_string_lossy());
    }
}

#[test]
fn unit_file_runs_installed_binary() {
    let unit = service_unit("/etc/sequent-gateway/sequent-gateway.toml");
    assert!(unit.starts_with("[Unit]\nDescription=Sequent Gateway - Modbus TCP to I²C Bridge\n"));
    assert!(unit.contains(
        "ExecStart=/usr/local/bin/sequent-gateway --config /etc/sequent-gateway/sequent-gateway.toml\n"
    ));
    assert!(unit.ends_with("[Install]\nWantedBy=multi-user.target\n"));
}

#[test]
fn prompt_answers() {
    assert!(answer_accepts(""));
    assert!(answer_accepts("  Y\n"));
    assert!(answer_accepts("yes"));
    assert!(!answer_accepts("n"));
    assert!(!answer_accepts("yep"));
}

#[test]
fn relaunch_command_line() {
    assert_eq!(
        relaunch_args("cfg.toml", "/home/pi"),
        vec!["/usr/local/bin/sequent-gateway", "configure", "--output", "/home/pi/cfg.toml"]
    );
    assert_eq!(relaunch_args("/tmp/c.toml", "/home/pi")[3], "/tmp/c.toml");
}

#[test]
fn text_order_matches_str_order() {
    let words = ["", "a", "ab", "b", "relay16", "relay8", "megaind", "Z", "é"];
    for x in words {
        for y in words {
            assert_eq!(text_less(x, y), x < y, "{x} {y}");
        }
    }
}

#[test]
fn install_decision() {
    assert_eq!(install_step(true, Some(10), Some(20)), InstallStep::RunHere);
    assert_eq!(install_step(false, Some(10), Some(10)), InstallStep::RelaunchInstalled);
    assert_eq!(install_step(false, Some(10), Some(11)), InstallStep::OfferInstall);
    assert_eq!(install_step(false, None, Some(10)), InstallStep::OfferInstall);
    assert_eq!(install_step(false, Some(10), None), InstallStep::OfferInstall);
}
