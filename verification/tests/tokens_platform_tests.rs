use diskpulse::platform::{df_bytes, df_field_of, df_space, drive_letter_from_root, normalize_drive_root};
use diskpulse::tokens::CancelSlot;

const DF: &str = "Filesystem     1B-blocks       Used  Available Use% Mounted on\n/dev/sda1    1000000   400000     600000  40% /\n";

#[test]
fn df_columns_are_read_from_the_second_line() {
    assert_eq!(df_field_of(DF, 1), Some(1_000_000));
    assert_eq!(df_field_of(DF, 3), Some(600_000));
    assert_eq!(df_field_of(DF, 0), None);
    assert_eq!(df_bytes(DF, 1), Ok(1_000_000));
    assert_eq!(df_bytes(DF, 9), Err("cannot parse df output".to_string()));
    assert_eq!(df_bytes("header only\n", 1), Err("cannot parse df output".to_string()));
    assert_eq!(df_bytes("h\r\nx 42\r\n", 1), Ok(42));
}

#[test]
fn df_space_scales_and_defaults_to_zero() {
    assert_eq!(df_space(DF, 1), (1_000_000, 600_000));
    assert_eq!(df_space(DF, 1024), (1_024_000_000, 614_400_000));
    assert_eq!(df_space("garbage", 1024), (0, 0));
}

#[test]
fn drive_roots_are_normalised() {
    assert_eq!(normalize_drive_root("c"), "C:\\");
    assert_eq!(normalize_drive_root(" d: "), "D:\\");
    assert_eq!(normalize_drive_root("e:\\\\"), "E:\\");
    assert_eq!(normalize_drive_root("\\\\server\\share\\"), "\\\\server\\share");
}

#[test]
fn mft_roots_name_a_whole_drive() {
    assert_eq!(drive_letter_from_root("c:"), Ok('C'));
    assert_eq!(drive_letter_from_root("D:\\"), Ok('D'));
    assert_eq!(drive_letter_from_root("e:/\\"), Ok('E'));
    assert_eq!(
        drive_letter_from_root("C:\\Users"),
        Err("MFT scan requires a drive root, got C:\\Users".to_string())
    );
    assert_eq!(
        drive_letter_from_root("1:\\"),
        Err("MFT scan requires a drive root, got 1:\\".to_string())
    );
}

#[test]
fn a_new_scan_replaces_and_cancels_the_previous() {
    let mut slot = CancelSlot::new();
    let (first, previous) = slot.begin();
    assert_eq!(previous, None);
    let (second, previous) = slot.begin();
    assert_eq!(previous, Some(first));
    slot.finish(first);
    assert_eq!(slot.active(), Some(second));
    slot.finish(second);
    assert_eq!(slot.active(), None);
    assert_eq!(slot.cancel(), None);
    let (third, _) = slot.begin();
    assert_eq!(slot.cancel(), Some(third));
    assert_eq!(slot.active(), None);
}
