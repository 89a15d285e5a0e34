use soundbot::sounds::{are_sound_paths, format_sound_list, sort_names, sound_list, sound_name_from_path, sound_path, text_le_exec};

fn strings(v: &[&str]) -> Vec<String> {
    v.iter().map(|s| s.to_string()).collect()
}

#[test]
fn sound_path_format() {
    assert_eq!(sound_path("zewzew"), "./sounds/zewzew.mp3");
    assert_eq!(sound_path(""), "./sounds/.mp3");
}

#[test]
fn sound_name_round_trip() {
    for n in ["zewzew", "", "a.b", "brazil"] {
        assert_eq!(sound_name_from_path(&sound_path(n)), Some(n.to_string()));
    }
    assert_eq!(sound_name_from_path("./sounds.mp3"), None);
    assert_eq!(sound_name_from_path("./sounds/x.wav"), None);
    assert_eq!(sound_name_from_path("sounds/x.mp3"), None);
}

#[test]
fn text_order_matches_string_order() {
    let samples = ["", "a", "ab", "b", "B", "é", "z", "zé", "aa"];
    for a in samples {
        for b in samples {
            assert_eq!(text_le_exec(a, b), a <= b, "{:?} {:?}", a, b);
        }
    }
}

#[test]
fn sort_matches_std_sort() {
    let v = strings(&["zewzew", "brazil", "Abc", "abc", "brazil", "é", ""]);
    let mut expected = v.clone();
    expected.sort();
    assert_eq!(sort_names(v), expected);
}

#[test]
fn list_format_groups_of_25() {
    let sep = format!("\n{}\n", "-".repeat(93));
    assert_eq!(format_sound_list(&Vec::new()), "");
    assert_eq!(format_sound_list(&strings(&["a", "b"])), format!("a, b{}", sep));
    let many: Vec<String> = (0..26).map(|i| format!("s{:02}", i)).collect();
    let first = many[..25].join(", ");
    assert_eq!(format_sound_list(&many), format!("{}{}s25{}", first, sep, sep));
}

#[test]
fn list_from_paths() {
    let sep = format!("\n{}\n", "-".repeat(93));
    let paths = strings(&["./sounds/zewzew.mp3", "./sounds/brazil.mp3"]);
    assert!(are_sound_paths(&paths));
    assert_eq!(sound_list(&paths), format!("brazil, zewzew{}", sep));
    let bad = strings(&["./sounds/zewzew.mp3", "./sounds/.gitkeep"]);
    assert!(!are_sound_paths(&bad));
}
