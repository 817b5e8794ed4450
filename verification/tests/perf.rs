use bloom_cook::perf::{data_file, json_escape, parse_u32, trim_start, upload_totals, UploadScan};

#[test]
fn integer_flags_are_parsed_or_explained() {
    assert_eq!(parse_u32(Some("1920".to_string()), "--width"), Ok(1920));
    assert_eq!(parse_u32(None, "--width").unwrap_err(), "missing value for --width");
    assert_eq!(parse_u32(Some("-1".to_string()), "--width").unwrap_err(), "--width must be an unsigned integer");
    assert_eq!(parse_u32(Some("4294967296".to_string()), "--frames").unwrap_err(), "--frames must be an unsigned integer");
    assert_eq!(parse_u32(Some("+7".to_string()), "--frames"), Ok(7));
}

#[test]
fn trace_lines_name_their_data_files() {
    assert_eq!(data_file("    data: File(\"data1.bin\"),").as_deref(), Some("data1.bin"));
    assert_eq!(data_file("File(\"\")").as_deref(), Some(""));
    assert_eq!(data_file("no file here"), None);
    assert_eq!(data_file("File(\"unterminated"), None);
    assert_eq!(trim_start(" \t WriteBuffer("), "WriteBuffer(");
}

#[test]
fn report_strings_escape_quotes_backslashes_and_newlines() {
    assert_eq!(json_escape("a\"b\\c\nd\te"), "a\\\"b\\\\c\\nd\te");
}

#[test]
fn uploads_are_summed_per_submitted_frame() {
    let sizes = [("a.bin", 10u64), ("b.bin", 7), ("c.bin", 3)];
    let trace = "WriteBuffer(\n  data: File(\"a.bin\"),\n)\nWriteTexture(\n  data: File(\"b.bin\"),\n)\nSubmit(1)\nWriteBuffer(\n  data: File(\"c.bin\"),\n)\nSubmit(2)\nFile(\"ignored.bin\")\nSubmit(3)\n";
    let mut scan = UploadScan::new();
    for line in trace.lines() {
        if let Some(file) = scan.begin_line(line) {
            let bytes = sizes.iter().find(|(name, _)| *name == file).unwrap().1;
            scan.record_upload(bytes);
        }
        scan.end_line(line);
    }
    assert_eq!(scan.frames, vec![(10, 7), (3, 0), (0, 0)]);
    let totals = upload_totals(&scan.frames, 2).unwrap();
    assert_eq!(totals.submit_count, 3);
    assert_eq!(totals.measured_submit_count, 2);
    assert_eq!(totals.buffer_total_bytes, 3);
    assert_eq!(totals.texture_total_bytes, 0);
    assert_eq!(
        upload_totals(&scan.frames, 4).unwrap_err(),
        "trace has 3 submissions, fewer than 4 measured frames"
    );
}
