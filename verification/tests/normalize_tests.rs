use monitor::normalize;

fn norm(raw: &str) -> String {
    normalize(raw).into_owned()
}

#[test]
fn it_works() {
    assert_eq!(2 + 2, 4);
}

#[test]
fn normalize_capitalizes_a_plain_name() {
    assert_eq!(norm("firefox"), "Firefox");
    assert_eq!(norm("FIREFOX"), "Firefox");
    assert_eq!(norm("fIrEfOx"), "Firefox");
}

#[test]
fn normalize_turns_hyphens_into_spaces() {
    assert_eq!(norm("gnome-terminal-server"), "Gnome Terminal Server");
    assert_eq!(norm("gnome terminal-server"), "Gnome Terminal Server");
}

#[test]
fn normalize_keeps_what_follows_the_last_dot() {
    assert_eq!(norm("org.gnome.Nautilus"), "Nautilus");
    assert_eq!(norm("Visual-Studio.Code"), "Visual Code");
    assert_eq!(norm("a.b c.d"), "B D");
}

#[test]
fn normalize_drops_empty_segments() {
    assert_eq!(norm(""), "");
    assert_eq!(norm("   "), "");
    assert_eq!(norm("a  b"), "A B");
    assert_eq!(norm(" a "), "A");
    assert_eq!(norm("--a--b--"), "A B");
    assert_eq!(norm("foo."), "");
    assert_eq!(norm("foo. bar"), "Bar");
    assert_eq!(norm("."), "");
}

#[test]
fn normalize_is_insensitive_to_case_and_hyphens() {
    assert_eq!(norm("Visual-Studio.Code"), norm("visual-studio.code"));
    assert_eq!(norm("Gnome-Terminal"), norm("gnome terminal"));
    assert_eq!(norm("LIBRE-OFFICE"), norm("libre office"));
}

#[test]
fn normalize_is_idempotent_on_ascii_names() {
    let names = [
        "firefox",
        "Visual-Studio.Code",
        "gnome-terminal-server",
        "org.gnome.Nautilus",
        "a  b",
        "",
        "code",
        "x11-ssh-askpass.bin",
        "already Normal",
    ];
    for name in names {
        let once = norm(name);
        assert_eq!(norm(&once), once);
    }
}

#[test]
fn normalize_maps_case_beyond_ascii() {
    assert_eq!(norm("\u{e9}COLE"), "\u{c9}cole");
    assert_eq!(norm("\u{c9}COLE"), "\u{c9}cole");
    assert_eq!(norm("\u{df}a"), "SSa");
}

#[test]
fn normalize_is_not_idempotent_where_a_letter_grows_in_upper_case() {
    let once = norm("\u{df}a");
    assert_eq!(once, "SSa");
    assert_eq!(norm(&once), "Ssa");
}

#[test]
fn normalize_keeps_other_characters() {
    assert_eq!(norm("a|b"), "A|b");
    assert_eq!(norm("app_2"), "App_2");
    assert_eq!(norm("7zip"), "7zip");
}
