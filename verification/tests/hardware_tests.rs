//! Board-identity parsing and detection.

use rusted_jetsons::text::chars_of;
use rusted_jetsons::{BoardInfo, FsView};

#[test]
fn test_l4t_version_parsing_r38() {
    let content = "L4T_VERSION=38.2.0\nJETPACK_VERSION=6.0.1\nBOARD=p3701";
    assert_eq!(rusted_jetsons::parse_l4t_version(content), "38.2.0");
}

#[test]
fn test_l4t_version_parsing_r32() {
    let content = "L4T_VERSION=32.7.2\nJETPACK_VERSION=4.6.4\nBOARD=t186ref";
    assert_eq!(rusted_jetsons::parse_l4t_version(content), "32.7.2");
}

#[test]
fn test_jetpack_version_parsing() {
    let content = "JETPACK_VERSION=6.0.1\nL4T_VERSION=36.3.0\nBOARD=p3701";
    assert_eq!(rusted_jetsons::parse_jetpack_version(content), "6.0.1");
}

#[test]
fn test_jetpack_version_missing() {
    let content = "L4T_VERSION=36.3.0\nBOARD=p3701";
    assert_eq!(rusted_jetsons::parse_jetpack_version(content), "");
}

#[test]
fn test_board_info_default() {
    let info = BoardInfo::default();
    assert_eq!(info.model, "Unknown Jetson Board");
    assert_eq!(info.jetpack, "Unknown");
    assert_eq!(info.l4t, "Unknown");
    assert_eq!(info.serial, "Unknown");
}

#[test]
fn test_is_jetson_with_tegra_fuse() {
    let mut fs = FsView::new();
    assert!(!rusted_jetsons::is_jetson(&fs));

    fs.add_file(chars_of("/sys/module/tegra_fuse"), String::new());
    assert!(rusted_jetsons::is_jetson(&fs));

    let mut fs2 = FsView::new();
    fs2.add_file(chars_of("/etc/nv_tegra_release"), "# R35 (release)\n".to_string());
    assert!(rusted_jetsons::is_jetson(&fs2));
}

#[test]
fn test_l4t_from_release_comment() {
    let line = "# R36 (release), REVISION: 4.3, GCID: 12345, BOARD: generic";
    assert_eq!(rusted_jetsons::parse_l4t_from_comment(line, ""), "36.4.3");

    // an existing value is never overwritten
    assert_eq!(rusted_jetsons::parse_l4t_from_comment(line, "35.1"), "35.1");

    // without a revision marker, the release number alone
    let bare = "# R36 (release)x";
    assert_eq!(rusted_jetsons::parse_l4t_from_comment(bare, ""), "36.0");
}

#[test]
fn test_jetpack_from_release_comment() {
    let line = "# JETPACK_VERSION=5.1.2, something else";
    assert_eq!(rusted_jetsons::parse_jetpack_from_comment(line, ""), "5.1.2");
    assert_eq!(rusted_jetsons::parse_jetpack_from_comment(line, "6.0"), "6.0");
    assert_eq!(rusted_jetsons::parse_jetpack_from_comment("# nothing", ""), "");
}

#[test]
fn test_board_from_release_comment() {
    assert_eq!(
        rusted_jetsons::parse_board_from_comment("# BOARD: t186ref, EABI: aarch64"),
        Some("t186ref".to_string())
    );
    assert_eq!(rusted_jetsons::parse_board_from_comment("# BOARD: generic"), None);
    assert_eq!(rusted_jetsons::parse_board_from_comment("# no board here"), None);
}

#[test]
fn test_derive_jetpack_from_l4t_known_versions() {
    assert_eq!(rusted_jetsons::derive_jetpack_from_l4t("38.2.1"), "7.0");
    assert_eq!(rusted_jetsons::derive_jetpack_from_l4t("36.4.3"), "6.2");
    assert_eq!(rusted_jetsons::derive_jetpack_from_l4t("35.4.1"), "5.1.2");
    assert_eq!(rusted_jetsons::derive_jetpack_from_l4t("32.7.1"), "4.6.1");
    assert_eq!(rusted_jetsons::derive_jetpack_from_l4t("21.5"), "2.3.1");
}

#[test]
fn test_derive_jetpack_from_l4t_unknown() {
    assert_eq!(rusted_jetsons::derive_jetpack_from_l4t("99.9.9"), "Unknown");
    assert_eq!(rusted_jetsons::derive_jetpack_from_l4t("38"), "Unknown");
    assert_eq!(rusted_jetsons::derive_jetpack_from_l4t(""), "Unknown");
}

#[test]
fn test_detect_board_model_from_device_tree() {
    let mut fs = FsView::new();
    fs.add_file(
        chars_of("/sys/firmware/devicetree/base/model"),
        "NVIDIA Orin Nano Developer Kit\u{0}".to_string(),
    );
    assert_eq!(
        rusted_jetsons::detect_board_model(&fs),
        "NVIDIA Orin Nano Developer Kit"
    );

    let empty = FsView::new();
    assert_eq!(rusted_jetsons::detect_board_model(&empty), "Unknown Jetson Board");
}

#[test]
fn test_detect_model_from_compatible_known_ids() {
    let mut fs = FsView::new();
    fs.add_file(
        chars_of("/sys/firmware/devicetree/base/compatible"),
        "nvidia,p3768-0000+p3767-0005\u{0}nvidia,p3701-0000\u{0}nvidia,tegra234\u{0}".to_string(),
    );
    assert_eq!(rusted_jetsons::detect_model_from_compatible(&fs), "Jetson AGX Orin");

    let empty = FsView::new();
    assert_eq!(
        rusted_jetsons::detect_model_from_compatible(&empty),
        "Unknown Jetson Board"
    );
}

#[test]
fn test_detect_serial_number_from_device_tree() {
    let mut fs = FsView::new();
    fs.add_file(
        chars_of("/sys/firmware/devicetree/base/serial-number"),
        "0123456789\u{0}".to_string(),
    );
    assert_eq!(rusted_jetsons::detect_serial_number(&fs), "0123456789");
}

#[test]
fn test_detect_architecture_from_model() {
    let mut fs = FsView::new();
    fs.add_file(
        chars_of("/sys/firmware/devicetree/base/model"),
        "NVIDIA Jetson AGX Orin tegra234\u{0}".to_string(),
    );
    assert_eq!(rusted_jetsons::detect_architecture(&fs), "Orin (tegra234)");

    let empty = FsView::new();
    assert_eq!(rusted_jetsons::detect_architecture(&empty), "Unknown");
}

#[test]
fn test_detect_board_merges_sources() {
    let mut fs = FsView::new();
    fs.add_file(
        chars_of("/etc/nv_tegra_release"),
        "# R35 (release), REVISION: 3.1, GCID: 1, BOARD: t186ref, EABI: aarch64\n".to_string(),
    );
    fs.add_file(
        chars_of("/sys/firmware/devicetree/base/serial-number"),
        "9876\u{0}".to_string(),
    );
    let board = rusted_jetsons::detect_board(&fs);
    assert_eq!(board.l4t, "35.3.1");
    // no explicit label: derived from the low-level version table
    assert_eq!(board.jetpack, "5.1.1");
    assert_eq!(board.model, "t186ref");
    assert_eq!(board.serial, "9876");
}

#[test]
fn test_detect_board_without_release_file() {
    let mut fs = FsView::new();
    fs.add_file(
        chars_of("/sys/firmware/devicetree/base/model"),
        "NVIDIA Jetson Xavier NX\u{0}".to_string(),
    );
    let board = rusted_jetsons::detect_board(&fs);
    assert_eq!(board.model, "NVIDIA Jetson Xavier NX");
    assert_eq!(board.l4t, "Unknown");
    assert_eq!(board.jetpack, "Unknown");
    assert_eq!(board.serial, "Unknown");
}

// A collector against a root with none of its expected files returns a
// fully populated identity of explicit unknowns — it must not fail.
#[test]
fn test_detect_board_on_empty_root() {
    let fs = FsView::new();
    let board = rusted_jetsons::detect_board(&fs);
    assert_eq!(board.model, "Unknown Jetson Board");
    assert_eq!(board.jetpack, "Unknown");
    assert_eq!(board.l4t, "Unknown");
    assert_eq!(board.serial, "Unknown");
}
