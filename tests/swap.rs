use recfstab::swap::{
    get_swap_identifier, get_swap_target, is_swap_file, is_swap_under_root, is_zram,
    parse_swap_line, parse_swaps, unescape_proc_swaps, SwapInfo,
};

#[test]
fn test_is_zram() {
    assert!(is_zram("/dev/zram0"));
    assert!(is_zram("/dev/zram1"));
    assert!(is_zram("/dev/zram123"));
    assert!(!is_zram("/dev/sda1"));
    assert!(!is_zram("/dev/nvme0n1p1"));
    assert!(!is_zram("/swapfile"));
}

#[test]
fn test_is_swap_file() {
    assert!(is_swap_file("/swapfile"));
    assert!(is_swap_file("/var/swap"));
    assert!(is_swap_file("/mnt/swapfile"));
    assert!(!is_swap_file("/dev/sda1"));
    assert!(!is_swap_file("/dev/nvme0n1p2"));
}

#[test]
fn test_parse_swap_line() {
    let line = "/dev/sda2                               partition\t8388604\t0\t-2";
    let swap = parse_swap_line(line).unwrap();
    assert_eq!(swap.filename, "/dev/sda2");
    assert_eq!(swap.swap_type, "partition");

    let line = "/swapfile                               file\t4194300\t0\t-3";
    let swap = parse_swap_line(line).unwrap();
    assert_eq!(swap.filename, "/swapfile");
    assert_eq!(swap.swap_type, "file");

    assert!(parse_swap_line("").is_none());
    assert!(parse_swap_line("   ").is_none());
}

#[test]
fn test_parse_swap_line_with_spaces() {
    let line = "/mnt/my\\040swap                         file\t1048576\t0\t-4";
    let swap = parse_swap_line(line).unwrap();
    assert_eq!(swap.filename, "/mnt/my swap");
    assert_eq!(swap.swap_type, "file");
}

#[test]
fn test_unescape_proc_swaps() {
    assert_eq!(unescape_proc_swaps("/mnt/my\\040disk"), "/mnt/my disk");
    assert_eq!(unescape_proc_swaps("/mnt/tab\\011here"), "/mnt/tab\there");
    assert_eq!(unescape_proc_swaps("/swapfile"), "/swapfile");
    assert_eq!(unescape_proc_swaps("/mnt/a\\040b\\040c"), "/mnt/a b c");
}

#[test]
fn test_is_swap_under_root() {
    let block_swap = SwapInfo {
        filename: "/dev/sda2".to_string(),
        swap_type: "partition".to_string(),
    };
    let file_swap = SwapInfo {
        filename: "/mnt/swapfile".to_string(),
        swap_type: "file".to_string(),
    };
    let other_swap = SwapInfo {
        filename: "/other/swapfile".to_string(),
        swap_type: "file".to_string(),
    };

    assert!(is_swap_under_root(&block_swap, "/mnt"));
    assert!(is_swap_under_root(&block_swap, "/other"));

    assert!(is_swap_under_root(&file_swap, "/mnt"));
    assert!(!is_swap_under_root(&file_swap, "/other"));
    assert!(is_swap_under_root(&other_swap, "/other"));
    assert!(!is_swap_under_root(&other_swap, "/mnt"));

    assert!(is_swap_under_root(&file_swap, "/"));
    assert!(is_swap_under_root(&other_swap, "/"));
}

#[test]
fn test_get_swap_target() {
    let block_swap = SwapInfo {
        filename: "/dev/sda2".to_string(),
        swap_type: "partition".to_string(),
    };
    let file_swap = SwapInfo {
        filename: "/mnt/swapfile".to_string(),
        swap_type: "file".to_string(),
    };

    assert_eq!(get_swap_target(&block_swap, "/mnt"), "none");
    assert_eq!(get_swap_target(&file_swap, "/mnt"), "/swapfile");
}

fn swap(filename: &str) -> SwapInfo {
    SwapInfo {
        filename: filename.to_string(),
        swap_type: "file".to_string(),
    }
}

#[test]
fn unescape_proc_swaps_malformed_stays_literal() {
    assert_eq!(unescape_proc_swaps("a\\04"), "a\\04");
    assert_eq!(unescape_proc_swaps("a\\048"), "a\\048");
    assert_eq!(unescape_proc_swaps("a\\777b"), "a\\777b");
    assert_eq!(unescape_proc_swaps("\\\\040"), "\\ ");
    assert_eq!(unescape_proc_swaps("\\134x"), "\\x");
    assert_eq!(unescape_proc_swaps("\\377"), "\u{ff}");
}

#[test]
fn parse_swap_line_needs_two_fields() {
    assert!(parse_swap_line("/swapfile").is_none());
    assert!(parse_swap_line("  /swapfile  ").is_none());
    let w = parse_swap_line("  /swapfile   file").unwrap();
    assert_eq!(w.filename, "/swapfile");
    assert_eq!(w.swap_type, "file");
}

#[test]
fn parse_swaps_skips_header_and_zram() {
    let text = "Filename\t\t\t\tType\t\tSize\t\tUsed\t\tPriority\n\
                /dev/sda2                               partition\t8388604\t0\t-2\n\
                /dev/zram0                              partition\t4194300\t0\t100\n\
                /swap\\040file                           file\t1048576\t0\t-3\n";
    let ws = parse_swaps(text);
    assert_eq!(ws.len(), 2);
    assert_eq!(ws[0].filename, "/dev/sda2");
    assert_eq!(ws[1].filename, "/swap file");
    assert!(parse_swaps("").is_empty());
    assert!(parse_swaps("/dev/sda2 partition 1 0 -2").is_empty());
}

#[test]
fn swap_identifier_and_target() {
    assert_eq!(get_swap_identifier(&swap("/swapfile"), "UUID", Some("x")), "/swapfile");
    let block = SwapInfo {
        filename: "/dev/sda2".to_string(),
        swap_type: "partition".to_string(),
    };
    assert_eq!(get_swap_identifier(&block, "UUID", Some("ab-12\n")), "UUID=ab-12");
    assert_eq!(get_swap_identifier(&block, "LABEL", None), "/dev/sda2");
    assert_eq!(get_swap_target(&swap("/mnt/swapfile"), "/mnt/"), "/swapfile");
    assert_eq!(get_swap_target(&swap("/swapfile"), "/"), "/swapfile");
    assert_eq!(get_swap_target(&swap("/mnt"), "/mnt"), "/");
    assert_eq!(get_swap_target(&swap("/other/swap"), "/mnt"), "/other/swap");
    assert!(is_swap_under_root(&swap("/mnt/swapfile"), "/mnt//"));
    assert!(!is_swap_under_root(&swap("/mntx/swapfile"), "/mnt"));
}
