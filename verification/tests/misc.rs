use rustcraft::player::{gravity_change, should_release_keys};
use rustcraft::server_list::{buttons_disabled, connect_refusal, delete_prompt, entry_colour};
use rustcraft::sysinfo::cpu_ticks;
use rustcraft::item::{material_to_key, texture_location, tint_for_material, BakeLookup, ItemRenderer};
use rustcraft::player::{is_sprinting, ActionKey, PlayerMovement};
use rustcraft::logo::{splash_index, splash_lines, splash_texts};
use rustcraft::server_list::{favicon_data, ping_icon_row, players_colour, players_text, version_text};
use rustcraft::veh::{exception_name, init, veh_crash_file_name, veh_header};

#[test]
fn exception_names() {
    assert_eq!(exception_name(0xC0000005), "STATUS_ACCESS_VIOLATION (null/wild pointer deref or unmapped memory)");
    assert_eq!(exception_name(0xC0000094), "STATUS_INTEGER_DIVIDE_BY_ZERO");
    assert_eq!(exception_name(0x80000004), "STATUS_SINGLE_STEP (single-step trap)");
    assert_eq!(exception_name(1), "UNKNOWN (see ntstatus.h)");
}

#[test]
fn handler_is_registered_once() {
    let mut installed = false;
    assert!(init(&mut installed));
    assert!(installed);
    assert!(!init(&mut installed));
    assert!(installed);
}

#[test]
fn material_keys() {
    assert_eq!(material_to_key("GrassBlock"), "grass_block");
    assert_eq!(material_to_key("Stone"), "stone");
    assert_eq!(material_to_key("DarkOakLeaves"), "dark_oak_leaves");
    assert_eq!(material_to_key(""), "");
}

#[test]
fn material_tints() {
    assert_eq!(tint_for_material("GrassBlock"), Some((127, 178, 56)));
    assert_eq!(tint_for_material("Vine"), Some((106, 173, 75)));
    assert_eq!(tint_for_material("SpruceLeaves"), Some((97, 153, 97)));
    assert_eq!(tint_for_material("BirchLeaves"), Some((128, 167, 85)));
    assert_eq!(tint_for_material("LilyPad"), Some((32, 128, 48)));
    assert_eq!(tint_for_material("Water"), Some((63, 118, 228)));
    assert_eq!(tint_for_material("Stone"), None);
}

#[test]
fn texture_locations() {
    assert_eq!(
        texture_location("minecraft:block/stone"),
        Some(("minecraft".to_string(), "textures/block/stone.png".to_string()))
    );
    assert_eq!(
        texture_location("a:b:c"),
        Some(("a".to_string(), "textures/b:c.png".to_string()))
    );
    assert_eq!(texture_location("nocolon"), None);
}

#[test]
fn bake_cache() {
    let mut r = ItemRenderer::new();
    assert_eq!(r.get_or_bake("stone"), BakeLookup::Unknown);
    assert_eq!(r.record_bake("stone", Some("tex/stone".to_string())), Some("tex/stone".to_string()));
    assert_eq!(r.get_or_bake("stone"), BakeLookup::Baked("tex/stone".to_string()));
    assert_eq!(r.record_bake("air", None), None);
    assert_eq!(r.get_or_bake("air"), BakeLookup::NotBakeable);
    r.reset();
    assert_eq!(r.get_or_bake("stone"), BakeLookup::Unknown);
    assert_eq!(r.get_or_bake("air"), BakeLookup::Unknown);
}

#[test]
fn ping_rows() {
    assert_eq!(ping_icon_row(0), 16);
    assert_eq!(ping_icon_row(75), 16);
    assert_eq!(ping_icon_row(76), 24);
    assert_eq!(ping_icon_row(225), 32);
    assert_eq!(ping_icon_row(350), 40);
    assert_eq!(ping_icon_row(999), 48);
    assert_eq!(ping_icon_row(1000), 56);
}

#[test]
fn player_counts_and_versions() {
    assert_eq!(players_text(true, 3, 20), "3/20");
    assert_eq!(players_text(false, 0, -1), "Out of date 0/-1");
    assert_eq!(players_text(true, i32::MIN, 0), "-2147483648/0");
    assert_eq!(players_colour(true), (255, 255));
    assert_eq!(players_colour(false), (85, 85));
    assert_eq!(version_text(0, "1.16.5"), "1.16.5");
    assert_eq!(version_text(12, "1.12.2"), "12 mods + 1.12.2");
}

#[test]
fn favicons() {
    assert_eq!(favicon_data("data:image/png;base64,aGVs\nbG8="), Some(b"hello".to_vec()));
    assert_eq!(favicon_data("data:image/png;base64,!!!"), None);
    assert_eq!(favicon_data("xxxxxxxxxxxxxxxxxxxxxx"), Some(vec![]));
}

#[test]
fn sprinting() {
    assert!(is_sprinting(true, true, false, false));
    assert!(!is_sprinting(true, true, true, false));
    assert!(!is_sprinting(true, true, false, true));
    assert!(!is_sprinting(false, true, false, false));
}

#[test]
fn double_tap_jump_toggles_flight() {
    let mut m = PlayerMovement::new();
    let ms = 1_000_000u64;
    m.update_jump(true, 0, 300, true, false);
    assert_eq!(m.when_last_jump_pressed, Some(0));
    m.update_jump(false, 100 * ms, 300, true, false);
    assert_eq!(m.when_last_jump_released, Some(100 * ms));
    m.update_jump(true, 200 * ms, 300, true, false);
    assert!(m.flying && m.want_to_fly);
    m.update_jump(true, 210 * ms, 300, true, false);
    assert!(m.flying);
    m.update_jump(false, 250 * ms, 300, true, false);
    // too slow: no toggle
    m.update_jump(true, 900 * ms, 300, true, false);
    assert!(m.flying);
    m.update_jump(false, 950 * ms, 300, true, false);
    m.update_jump(true, 1000 * ms, 300, true, false);
    assert!(!m.flying && !m.want_to_fly);
    // a game mode that cannot fly never toggles
    let mut s = PlayerMovement::new();
    s.update_jump(true, 0, 300, false, false);
    s.update_jump(false, ms, 300, false, false);
    s.update_jump(true, 2 * ms, 300, false, false);
    assert!(!s.flying);
}

#[test]
fn splash_rotation() {
    assert_eq!(splash_index(0, 3), 0);
    assert_eq!(splash_index(14, 3), 0);
    assert_eq!(splash_index(15, 3), 1);
    assert_eq!(splash_index(45, 3), 0);
}

#[test]
fn cpu_ticks_from_stat() {
    let stat = "1234 (my (odd) prog) S 1 2 3 4 5 6 7 8 9 10 111 222 0 0";
    assert_eq!(cpu_ticks(stat), Some((111, 222)));
    assert_eq!(cpu_ticks("no parens here 1 2 3"), None);
    assert_eq!(cpu_ticks("1 (x) S 1 2"), None);
    assert_eq!(cpu_ticks("1 (x) S 1 2 3 4 5 6 7 8 9 10 u 222"), None);
    assert_eq!(cpu_ticks("(x) "), None);
}

#[test]
fn server_list_texts() {
    assert_eq!(delete_prompt("Home", "localhost:25565"), "Are you sure you wish to delete Home localhost:25565?");
    assert_eq!(entry_colour(true, true), (0, 110, 0, 230));
    assert_eq!(entry_colour(false, true), (0, 0, 0, 200));
    assert_eq!(entry_colour(false, false), (0, 0, 0, 100));
}

#[test]
fn key_release_and_gravity() {
    assert!(!should_release_keys(true, 5, false));
    assert!(should_release_keys(false, 2, true));
    assert!(should_release_keys(false, 1, false));
    assert!(!should_release_keys(false, 1, true));
    assert!(!should_release_keys(false, 0, false));
    assert_eq!(gravity_change(true, true), (true, false));
    assert_eq!(gravity_change(false, false), (false, true));
    assert_eq!(gravity_change(true, false), (false, false));
}

#[test]
fn splash_lines_cut_like_lines() {
    assert_eq!(splash_lines("a\nb\n"), vec!["a".to_string(), "b".to_string()]);
    assert_eq!(splash_lines("a\r\nb"), vec!["a".to_string(), "b".to_string()]);
    assert_eq!(splash_lines(""), Vec::<String>::new());
    assert_eq!(splash_lines("\n"), vec!["".to_string()]);
    assert_eq!(splash_lines("a\n\n"), vec!["a".to_string(), "".to_string()]);
    assert_eq!(splash_lines("x\ry\n\r"), vec!["xy".to_string(), "".to_string()]);
}

#[test]
fn splash_texts_keep_every_line_in_a_fixed_order() {
    let files = vec![
        "one\ntwo\nthree\nfour\nfive\n".to_string(),
        "six\r\nseven\neight\nnine\nten".to_string(),
    ];
    let a = splash_texts(&files);
    let b = splash_texts(&files);
    assert_eq!(a, b);
    let mut sorted = a.clone();
    sorted.sort();
    let mut expected: Vec<String> = ["one", "two", "three", "four", "five", "six", "seven", "eight", "nine", "ten"]
        .iter()
        .map(|s| s.to_string())
        .collect();
    let in_file_order = expected.clone();
    expected.sort();
    assert_eq!(sorted, expected);
    assert_ne!(a, in_file_order);
}

#[test]
fn direct_connect_needs_an_address() {
    assert_eq!(connect_refusal(""), Some("Please enter a Server Address".to_string()));
    assert_eq!(connect_refusal("localhost:25565"), None);
}

#[test]
fn pressed_keys_release_outside_game() {
    let mut m = PlayerMovement::new();
    m.pressed_keys.set(ActionKey::Forward, true);
    m.pressed_keys.set(ActionKey::Jump, true);
    assert_eq!(m.pressed_keys.len(), 2);
    assert!(m.pressed_keys.is_pressed(ActionKey::Forward));
    m.release_keys_outside_game(true);
    assert!(m.pressed_keys.is_pressed(ActionKey::Forward));
    m.release_keys_outside_game(false);
    assert!(!m.pressed_keys.is_pressed(ActionKey::Forward));
    assert!(!m.pressed_keys.is_pressed(ActionKey::Jump));
    assert_eq!(m.pressed_keys.len(), 7);

    let mut n = PlayerMovement::new();
    n.pressed_keys.set(ActionKey::OpenInv, true);
    n.release_keys_outside_game(false);
    assert_eq!(n.pressed_keys.len(), 1);
    assert!(n.pressed_keys.is_pressed(ActionKey::OpenInv));
}

#[test]
fn buttons_disabled_without_selection() {
    assert!(buttons_disabled(None));
    assert!(!buttons_disabled(Some(0)));
    assert!(!buttons_disabled(Some(3)));
}

#[test]
fn movement_step_order() {
    // Gravity is decided from flying before the tick; an always-flying mode
    // then makes the player fly.
    let mut m = PlayerMovement::new();
    assert_eq!(m.movement_step(true, true, 1_000, 300, true, true), (false, false));
    assert!(m.flying);
    assert_eq!(m.movement_step(true, true, 2_000, 300, true, true), (true, false));

    // Outside the game, held keys are let go before the jump key is read.
    let mut n = PlayerMovement::new();
    n.pressed_keys.set(ActionKey::Jump, true);
    n.pressed_keys.set(ActionKey::Forward, true);
    assert_eq!(n.movement_step(false, false, 5, 300, true, false), (false, true));
    assert!(!n.pressed_keys.is_pressed(ActionKey::Jump));
    assert_eq!(n.when_last_jump_pressed, None);

    // In the game a double tap toggles flight.
    let ms = 1_000_000u64;
    let mut d = PlayerMovement::new();
    d.pressed_keys.set(ActionKey::Jump, true);
    d.movement_step(false, true, 0, 300, true, false);
    d.pressed_keys.set(ActionKey::Jump, false);
    d.movement_step(false, true, 50 * ms, 300, true, false);
    d.pressed_keys.set(ActionKey::Jump, true);
    d.movement_step(false, true, 100 * ms, 300, true, false);
    assert!(d.flying);
    assert!(d.want_to_fly);
}

#[test]
fn veh_crash_report() {
    let h = veh_header(90061, "abc", "today", 0xC0000005, 0x1234, 42, "bt");
    assert_eq!(
        h,
        "\n\n================ VEH EXCEPTION ================\n\
         time       : epoch+90061 (utc)\n\
         build      : abc (built today)\n\
         exception  : 0xC0000005 (STATUS_ACCESS_VIOLATION (null/wild pointer deref or unmapped memory))\n\
         address    : 0x0000000000001234\n\
         thread id  : 42\n\
         ---------------- backtrace ----------------\nbt\n\
         =============================================\n"
    );
    assert_eq!(veh_crash_file_name(17), "crash-veh-17.log");
}
