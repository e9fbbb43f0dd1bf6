use deadlocked::steam::library_paths;

#[test]
fn library_folders_are_the_quoted_path_values() {
    let content = "\"libraryfolders\"\n{\n\t\"0\"\n\t{\n\t\t\"path\"\t\t\"/home/u/.local/share/Steam\"\n\t\t\"label\"\t\t\"\"\n\t}\n\t\"1\"\n\t{\n\t\t\"path\"\t\t\"/mnt/games/SteamLibrary\"\n\t}\n}\n";
    assert_eq!(
        library_paths(content),
        vec!["/home/u/.local/share/Steam".to_string(), "/mnt/games/SteamLibrary".to_string()]
    );
}

#[test]
fn carriage_returns_before_line_feeds_are_dropped() {
    let content = "\t\"path\"\t\"/data/Steam\"\r\n\t\"path\"\t\"/other\"";
    assert_eq!(library_paths(content), vec!["/data/Steam".to_string(), "/other".to_string()]);
}

#[test]
fn lines_without_the_path_key_name_no_folder() {
    assert!(library_paths("").is_empty());
    assert!(library_paths("\"label\" \"x\"\n\"pathx\" \"y\"\n\n").is_empty());
}

#[test]
fn the_piece_before_the_last_quote_is_taken() {
    assert_eq!(library_paths("x \"path\" y"), vec!["path".to_string()]);
    assert_eq!(library_paths("\"path\" \"a\" \"b\""), vec!["b".to_string()]);
}
