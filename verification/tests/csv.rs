use wasi_usb::calendar::epoch_days_to_ymd;
use wasi_usb::csv::{
    csv_escape, format_timestamp, guest_mem_bytes, iso_timestamp, now, opening_text, RawUsage, Row,
    Rusage,
};

#[test]
fn iso_timestamp_format_is_well_shaped() {
    let s = iso_timestamp();
    // "YYYY-MM-DDTHH:MM:SSZ" → length 20
    assert_eq!(s.len(), 20, "got {s:?}");
    assert_eq!(&s[4..5], "-");
    assert_eq!(&s[7..8], "-");
    assert_eq!(&s[10..11], "T");
    assert_eq!(&s[13..14], ":");
    assert_eq!(&s[16..17], ":");
    assert_eq!(&s[19..], "Z");
}

#[test]
fn epoch_days_known_dates() {
    // 1970-01-01 → day 0
    assert_eq!(epoch_days_to_ymd(0), (1970, 1, 1));
    // 2000-02-29 (leap day) → day 11_016
    assert_eq!(epoch_days_to_ymd(11016), (2000, 2, 29));
    // 2026-04-26 → 20_569 days after 1970-01-01
    assert_eq!(epoch_days_to_ymd(20569), (2026, 4, 26));
}

#[test]
fn epoch_days_around_century_years() {
    assert_eq!(epoch_days_to_ymd(-1), (1969, 12, 31));
    assert_eq!(epoch_days_to_ymd(-719468), (0, 3, 1));
    assert_eq!(epoch_days_to_ymd(-719469), (0, 2, 29));
    assert_eq!(epoch_days_to_ymd(-25508), (1900, 3, 1));
    assert_eq!(epoch_days_to_ymd(-25509), (1900, 2, 28));
    assert_eq!(epoch_days_to_ymd(11017), (2000, 3, 1));
}

#[test]
fn consecutive_days_are_consecutive_dates() {
    let mut before = epoch_days_to_ymd(-800_000);
    for z in -799_999..-653_000 {
        let after = epoch_days_to_ymd(z);
        let next_day = after == (before.0, before.1, before.2 + 1);
        let next_month = after == (before.0, before.1 + 1, 1);
        let next_year = before.1 == 12 && after == (before.0 + 1, 1, 1);
        assert!(next_day || next_month || next_year, "{before:?} then {after:?}");
        before = after;
    }
}

#[test]
fn csv_escape_passthrough() {
    assert_eq!(csv_escape("hello").as_ref(), "hello");
    assert_eq!(csv_escape("native-libusb").as_ref(), "native-libusb");
}

#[test]
fn csv_escape_quotes_embedded_separators() {
    assert_eq!(csv_escape("a,b").as_ref(), "\"a,b\"");
    assert_eq!(csv_escape("she said \"hi\"").as_ref(), "\"she said \"\"hi\"\"\"");
    assert_eq!(csv_escape("line1\nline2").as_ref(), "\"line1\nline2\"");
}

#[test]
fn csv_escape_carriage_return_and_empty() {
    assert_eq!(csv_escape("a\rb").as_ref(), "\"a\rb\"");
    assert_eq!(csv_escape("").as_ref(), "");
    assert_eq!(csv_escape("\"").as_ref(), "\"\"\"\"");
    assert!(matches!(csv_escape("plain"), std::borrow::Cow::Borrowed("plain")));
    assert!(matches!(csv_escape("é,ß"), std::borrow::Cow::Owned(_)));
}

#[test]
fn timestamps_of_known_moments() {
    assert_eq!(format_timestamp(0), "1970-01-01T00:00:00Z");
    assert_eq!(format_timestamp(951_782_400), "2000-02-29T00:00:00Z");
    assert_eq!(format_timestamp(1_777_206_896), "2026-04-26T12:34:56Z");
    assert_eq!(format_timestamp(253_402_300_799), "9999-12-31T23:59:59Z");
    assert_eq!(format_timestamp(253_402_300_800), "10000-01-01T00:00:00Z");
}

#[test]
fn iso_timestamp_is_the_present() {
    let secs = std::time::SystemTime::now()
        .duration_since(std::time::UNIX_EPOCH)
        .unwrap()
        .as_secs();
    let stamp = iso_timestamp();
    let near: Vec<String> = (secs..secs + 15).map(format_timestamp).collect();
    assert!(near.contains(&stamp), "{stamp} is not one of {near:?}");
}

#[test]
fn monotonic_clock_does_not_go_back() {
    let first = now();
    let second = now();
    assert!(second >= first);
}

#[test]
fn logger_writes_header_and_row() {
    let mut content = opening_text(None);
    let mut row = Row::new("native-rusb", "bulk");
    row.iteration = 0;
    row.bytes = 1_048_576;
    row.duration_ns = 12_345_678;
    row.user_cpu_us = 100;
    row.sys_cpu_us = 50;
    row.rss_peak_kb = 8192;
    row.checksum_hex = Some("deadbeef".into());
    content.push_str(&row.line(&iso_timestamp()));

    let lines: Vec<&str> = content.lines().collect();
    assert_eq!(lines.len(), 2);
    assert!(lines[0].starts_with("timestamp_iso,"));
    assert!(lines[1].contains(",native-rusb,bulk,0,1048576,12345678,"));
    assert!(lines[1].ends_with(",deadbeef,"));
}

#[test]
fn header_names_twelve_columns() {
    let header = opening_text(Some(0));
    assert_eq!(
        header,
        "timestamp_iso,condition,workload,iteration,bytes,duration_ns,\
         user_cpu_us,sys_cpu_us,rss_peak_kb,guest_mem_bytes,\
         checksum_hex,notes\n"
    );
    assert_eq!(header.split(',').count(), 12);
    assert_eq!(opening_text(None), header);
    assert_eq!(opening_text(Some(1)), "");
}

#[test]
fn row_line_in_full() {
    let mut row = Row::new("wasi,raw", "ctrl");
    row.iteration = 7;
    row.bytes = 18;
    row.duration_ns = u64::MAX;
    row.guest_mem_bytes = Some(65536);
    row.notes = Some("say \"x\"".into());
    assert_eq!(
        row.line("2026-04-26T12:34:56Z"),
        "2026-04-26T12:34:56Z,\"wasi,raw\",ctrl,7,18,18446744073709551615,0,0,0,65536,,\"say \"\"x\"\"\"\n"
    );
}

#[test]
fn fields_come_back_from_a_row() {
    let mut row = Row::new("a\"b", "c,d");
    row.notes = Some("two\nlines".into());
    let line = row.line("t");
    assert_eq!(line, "t,\"a\"\"b\",\"c,d\",0,0,0,0,0,0,,,\"two\nlines\"\n");
}

#[test]
fn measured_rows_hold_differences() {
    let before = Rusage { user_us: 10, sys_us: 20, rss_peak_kb: 500 };
    let after = Rusage { user_us: 25, sys_us: 5, rss_peak_kb: 400 };
    let row = Row::measured("c", "w", 3, 4, 5, &before, &after, None, None);
    assert_eq!((row.iteration, row.bytes, row.duration_ns), (3, 4, 5));
    assert_eq!((row.user_cpu_us, row.sys_cpu_us, row.rss_peak_kb), (15, 0, 400));
    assert_eq!(row.guest_mem_bytes, None);
    assert!(row.notes.is_none() && row.checksum_hex.is_none());
    let row = Row::measured("c", "w", 3, 4, 5, &before, &after, None, Some("ab12".into()));
    assert_eq!(row.checksum_hex.as_deref(), Some("ab12"));
}

/// Reads comma-separated values: fields, quoted or not, and records that end with a line.
fn read_records(text: &str) -> Vec<Vec<String>> {
    let mut records = Vec::new();
    let mut fields = Vec::new();
    let mut field = String::new();
    let mut chars = text.chars().peekable();
    let mut quoted = false;
    while let Some(c) = chars.next() {
        match c {
            '"' if quoted && chars.peek() == Some(&'"') => {
                chars.next();
                field.push('"');
            }
            '"' => quoted = !quoted,
            ',' if !quoted => fields.push(std::mem::take(&mut field)),
            '\n' if !quoted => {
                fields.push(std::mem::take(&mut field));
                records.push(std::mem::take(&mut fields));
            }
            c => field.push(c),
        }
    }
    records
}

#[test]
fn log_reads_back_as_header_and_rows() {
    let mut content = opening_text(None);
    for i in 0..5 {
        let mut row = Row::new("a\"b,\r\nc", "bulk");
        row.iteration = i;
        row.bytes = u64::MAX;
        row.guest_mem_bytes = Some(65536);
        row.notes = Some(format!("line {i}\nand \"more\""));
        content.push_str(&row.line("t"));
    }
    let records = read_records(&content);
    assert_eq!(records.len(), 6);
    assert!(records.iter().all(|fields| fields.len() == 12));
    assert_eq!((records[0][0].as_str(), records[0][11].as_str()), ("timestamp_iso", "notes"));
    for i in 0..5 {
        let fields = &records[i + 1];
        assert_eq!(fields[1], "a\"b,\r\nc");
        assert_eq!((fields[3].as_str(), fields[4].as_str()), (i.to_string().as_str(), "18446744073709551615"));
        assert_eq!((fields[9].as_str(), fields[10].as_str()), ("65536", ""));
        assert_eq!(fields[11], format!("line {i}\nand \"more\""));
    }
}

#[test]
fn usage_snapshot_counts_microseconds() {
    let raw = RawUsage { user_sec: 2, user_usec: 3, sys_sec: 4, sys_usec: 5, max_rss: 6 };
    let usage = Rusage::snapshot(Some(raw));
    assert_eq!(usage, Rusage { user_us: 2_000_003, sys_us: 4_000_005, rss_peak_kb: 6 });
    assert_eq!(Rusage::snapshot(None), Rusage::default());
    assert_eq!(
        usage.delta(&Rusage::default()),
        Rusage { user_us: 2_000_003, sys_us: 4_000_005, rss_peak_kb: 6 }
    );
}

#[test]
fn usage_differences_never_fall_below_zero() {
    let later = Rusage { user_us: 10, sys_us: 20, rss_peak_kb: 300 };
    let earlier = Rusage { user_us: 4, sys_us: 25, rss_peak_kb: 100 };
    assert_eq!(later.delta(&earlier), Rusage { user_us: 6, sys_us: 0, rss_peak_kb: 200 });
    assert_eq!(earlier.delta(&later), Rusage { user_us: 0, sys_us: 5, rss_peak_kb: 0 });
    let row = Row::measured("c", "w", 0, 0, 0, &earlier, &later, None, None);
    assert_eq!(row.rss_peak_kb, 300);
}

#[test]
fn guest_memory_is_counted_in_pages() {
    assert_eq!(guest_mem_bytes(Some(17)), Some(17 * 65536));
    assert_eq!(guest_mem_bytes(None), None);
}
