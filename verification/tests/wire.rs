use tikv_redis::reply::{array, number, set_range_value, slice_reply, status};
use tikv_redis::texts::{
    error_line_bytes, failed_line_bytes, not_found_line_bytes, not_supported_line_bytes,
    ok_line_bytes, timeout_line_bytes, unknown_line_bytes, verb_append_bytes,
    verb_get_bytes, verb_getrange_bytes, verb_getset_bytes, verb_mget_bytes, verb_mset_bytes,
    verb_set_bytes, verb_setnx_bytes, verb_setrange_bytes, verb_strlen_bytes,
};
use tikv_redis::wire::{
    append_bytes, bytes_eq, copy_range, push_decimal, read_i32, read_unsigned, split_lines,
    to_uppercase, trim_bounds,
};

fn decimal(n: u64) -> String {
    let mut out = Vec::new();
    push_decimal(&mut out, n);
    String::from_utf8(out).unwrap()
}

#[test]
fn decimal_digits_of_numbers() {
    assert_eq!(decimal(0), "0");
    assert_eq!(decimal(7), "7");
    assert_eq!(decimal(10), "10");
    assert_eq!(decimal(40960), "40960");
    assert_eq!(decimal(u64::MAX), "18446744073709551615");
}

#[test]
fn decimal_is_appended_to_what_is_there() {
    let mut out = b"+".to_vec();
    push_decimal(&mut out, 17);
    assert_eq!(out, b"+17".to_vec());
}

#[test]
fn unsigned_numbers_are_read_up_to_the_limit() {
    assert_eq!(read_unsigned(b"0", 65535), Some(0));
    assert_eq!(read_unsigned(b"3", 65535), Some(3));
    assert_eq!(read_unsigned(b"+3", 65535), Some(3));
    assert_eq!(read_unsigned(b"007", 65535), Some(7));
    assert_eq!(read_unsigned(b"65535", 65535), Some(65535));
    assert_eq!(read_unsigned(b"65536", 65535), None);
    assert_eq!(read_unsigned(b"18446744073709551615", u64::MAX), Some(u64::MAX));
    assert_eq!(read_unsigned(b"18446744073709551616", u64::MAX), None);
    assert_eq!(read_unsigned(b"99999999999999999999999", u64::MAX), None);
}

#[test]
fn text_that_is_no_number_is_not_read() {
    assert_eq!(read_unsigned(b"", 65535), None);
    assert_eq!(read_unsigned(b"+", 65535), None);
    assert_eq!(read_unsigned(b"-1", 65535), None);
    assert_eq!(read_unsigned(b"-0", 65535), None);
    assert_eq!(read_unsigned(b"1a", 65535), None);
    assert_eq!(read_unsigned(b" 1", 65535), None);
    assert_eq!(read_unsigned(b"++1", 65535), None);
    assert_eq!(read_i32(b""), None);
    assert_eq!(read_i32(b"-"), None);
    assert_eq!(read_i32(b"+"), None);
    assert_eq!(read_i32(b"--1"), None);
    assert_eq!(read_i32(b"-+1"), None);
    assert_eq!(read_i32(b"1.5"), None);
}

#[test]
fn signed_numbers_are_read_within_32_bits() {
    assert_eq!(read_i32(b"0"), Some(0));
    assert_eq!(read_i32(b"-0"), Some(0));
    assert_eq!(read_i32(b"-1"), Some(-1));
    assert_eq!(read_i32(b"+12"), Some(12));
    assert_eq!(read_i32(b"2147483647"), Some(i32::MAX));
    assert_eq!(read_i32(b"2147483648"), None);
    assert_eq!(read_i32(b"-2147483648"), Some(i32::MIN));
    assert_eq!(read_i32(b"-2147483649"), None);
}

#[test]
fn letters_are_folded_to_upper_case() {
    assert_eq!(to_uppercase(b"get"), b"GET".to_vec());
    assert_eq!(to_uppercase(b"GetRange"), b"GETRANGE".to_vec());
    assert_eq!(to_uppercase(b"a-z{`09"), b"A-Z{`09".to_vec());
    assert_eq!(to_uppercase(&[0xc3, 0xa4]), vec![0xc3, 0xa4]);
    assert_eq!(to_uppercase(b""), Vec::<u8>::new());
}

#[test]
fn byte_strings_are_compared_byte_by_byte() {
    assert!(bytes_eq(b"", b""));
    assert!(bytes_eq(b"abc", b"abc"));
    assert!(!bytes_eq(b"abc", b"abd"));
    assert!(!bytes_eq(b"abc", b"ab"));
    assert!(!bytes_eq(b"", b"a"));
}

#[test]
fn ranges_are_copied_and_appended() {
    assert_eq!(copy_range(b"hello", 1, 4), b"ell".to_vec());
    assert_eq!(copy_range(b"hello", 2, 2), Vec::<u8>::new());
    assert_eq!(copy_range(b"hello", 0, 5), b"hello".to_vec());
    let mut out = b"ab".to_vec();
    append_bytes(&mut out, b"cd");
    assert_eq!(out, b"abcd".to_vec());
    append_bytes(&mut out, b"");
    assert_eq!(out, b"abcd".to_vec());
}

fn trimmed(s: &[u8]) -> Vec<u8> {
    let (lo, hi) = trim_bounds(s);
    s[lo..hi].to_vec()
}

#[test]
fn white_space_is_trimmed_at_both_ends() {
    assert_eq!(trimmed(b"  a b \r\n"), b"a b".to_vec());
    assert_eq!(trimmed(b"\t\n\x0b\x0c\r x"), b"x".to_vec());
    assert_eq!(trimmed(b"x"), b"x".to_vec());
    assert_eq!(trimmed(b""), Vec::<u8>::new());
    assert_eq!(trimmed(b" \r\n "), Vec::<u8>::new());
    assert_eq!(trimmed(b"a\0"), b"a\0".to_vec());
}

fn split(s: &[u8]) -> Vec<Vec<u8>> {
    split_lines(s, 0, s.len())
}

#[test]
fn frames_are_split_at_line_breaks() {
    assert_eq!(split(b"*1\r\n$3\r\nfoo"), vec![b"*1".to_vec(), b"$3".to_vec(), b"foo".to_vec()]);
    assert_eq!(split(b"a\r\n"), vec![b"a".to_vec(), b"".to_vec()]);
    assert_eq!(split(b"\r\na"), vec![b"".to_vec(), b"a".to_vec()]);
    assert_eq!(split(b""), vec![b"".to_vec()]);
    assert_eq!(split(b"a\r\n\r\nb"), vec![b"a".to_vec(), b"".to_vec(), b"b".to_vec()]);
    assert_eq!(split(b"a\rb\nc"), vec![b"a\rb\nc".to_vec()]);
    assert_eq!(split(b"a\r\r\nb"), vec![b"a\r".to_vec(), b"b".to_vec()]);
    assert_eq!(split(b"a\r"), vec![b"a\r".to_vec()]);
}

#[test]
fn a_part_of_a_frame_is_split() {
    assert_eq!(split_lines(b"xxa\r\nbyy", 2, 6), vec![b"a".to_vec(), b"b".to_vec()]);
    assert_eq!(split_lines(b"a\r\nb", 1, 1), vec![b"".to_vec()]);
}

#[test]
fn status_and_number_replies() {
    assert_eq!(status(b"bar"), b"+bar\r\n".to_vec());
    assert_eq!(status(b""), b"+\r\n".to_vec());
    assert_eq!(number(0), b"+0\r\n".to_vec());
    assert_eq!(number(12), b"+12\r\n".to_vec());
}

#[test]
fn array_replies() {
    assert_eq!(array(&vec![]), b"*0\r\n".to_vec());
    assert_eq!(array(&vec![b"bar".to_vec()]), b"*1\r\n$3\r\nbar\r\n".to_vec());
    assert_eq!(
        array(&vec![b"".to_vec(), b"0123456789".to_vec()]),
        b"*2\r\n$0\r\n\r\n$10\r\n0123456789\r\n".to_vec()
    );
}

fn slice(value: &str, start: i32, end: i32) -> String {
    String::from_utf8(slice_reply(&value.as_bytes().to_vec(), start, end)).unwrap()
}

#[test]
fn range_reads_leave_the_end_bound_out() {
    assert_eq!(slice("18696192030", 1, -1), "+869619203\r\n");
    assert_eq!(slice("18696192030", 0, 3), "+186\r\n");
    assert_eq!(slice("18696192030", 2, 2), "+\r\n");
    assert_eq!(slice("18696192030", -3, -1), "+03\r\n");
}

#[test]
fn range_reads_past_the_end() {
    assert_eq!(slice("18696192030", 0, 10), "+1869619203\r\n");
    assert_eq!(slice("18696192030", 0, 11), "+1869619203\r\n");
    assert_eq!(slice("18696192030", 0, 1000), "+1869619203\r\n");
    assert_eq!(slice("18696192030", 11, 12), "+\r\n");
    assert_eq!(slice("18696192030", 10, 20), "+\r\n");
    assert_eq!(slice("", 0, 0), "+\r\n");
    assert_eq!(slice("", 0, 5), "+\r\n");
}

#[test]
fn range_reads_that_fail() {
    assert_eq!(slice("18696192030", -1, 1), "-FAILED\r\n");
    assert_eq!(slice("18696192030", 3, 2), "-FAILED\r\n");
    assert_eq!(slice("18696192030", -100, 5), "-FAILED\r\n");
    assert_eq!(slice("18696192030", -100, -50), "-FAILED\r\n");
    assert_eq!(slice("", -1, 0), "-FAILED\r\n");
    assert_eq!(slice("abc", i32::MIN, i32::MAX), "-FAILED\r\n");
}

#[test]
fn range_writes_behind_the_end_pad_with_zero_bytes() {
    assert_eq!(
        set_range_value(&b"18690092030".to_vec(), 11, &b"++++++".to_vec()),
        b"18690092030++++++".to_vec()
    );
    assert_eq!(set_range_value(&b"ab".to_vec(), 4, &b"c".to_vec()), b"ab\0\0c".to_vec());
    assert_eq!(set_range_value(&b"".to_vec(), 5, &b"hahhaha".to_vec()), b"\0\0\0\0\0hahhaha".to_vec());
    assert_eq!(set_range_value(&b"".to_vec(), 0, &b"".to_vec()), b"".to_vec());
}

#[test]
fn range_writes_that_reach_the_end_replace_the_tail() {
    assert_eq!(set_range_value(&b"hello".to_vec(), 3, &b"XY".to_vec()), b"helXY".to_vec());
    assert_eq!(set_range_value(&b"hello".to_vec(), 3, &b"XYZ".to_vec()), b"helXYZ".to_vec());
    assert_eq!(set_range_value(&b"hello".to_vec(), 0, &b"0123456".to_vec()), b"0123456".to_vec());
}

#[test]
fn range_writes_inside_replace_in_place() {
    assert_eq!(
        set_range_value(&b"18696192030".to_vec(), 4, &b"00".to_vec()),
        b"18690092030".to_vec()
    );
    assert_eq!(set_range_value(&b"hello".to_vec(), 0, &b"J".to_vec()), b"Jello".to_vec());
    assert_eq!(set_range_value(&b"hello".to_vec(), 2, &b"".to_vec()), b"hello".to_vec());
}

#[test]
fn the_reply_lines() {
    assert_eq!(ok_line_bytes(), b"+OK\r\n".to_vec());
    assert_eq!(failed_line_bytes(), b"-FAILED\r\n".to_vec());
    assert_eq!(not_found_line_bytes(), b"-FAILED NOT FOUND\r\n".to_vec());
    assert_eq!(error_line_bytes(), b"-FAILED BY ERROR\r\n".to_vec());
    assert_eq!(timeout_line_bytes(), b"-ReceiveTimeout\r\n".to_vec());
    assert_eq!(not_supported_line_bytes(), b"-NOT SUPPORTED\r\n".to_vec());
    assert_eq!(unknown_line_bytes(), b"-UNKNOWN COMMAND\r\n".to_vec());
}

#[test]
fn the_verbs() {
    assert_eq!(verb_get_bytes(), b"GET".to_vec());
    assert_eq!(verb_mget_bytes(), b"MGET".to_vec());
    assert_eq!(verb_strlen_bytes(), b"STRLEN".to_vec());
    assert_eq!(verb_set_bytes(), b"SET".to_vec());
    assert_eq!(verb_setnx_bytes(), b"SETNX".to_vec());
    assert_eq!(verb_getset_bytes(), b"GETSET".to_vec());
    assert_eq!(verb_append_bytes(), b"APPEND".to_vec());
    assert_eq!(verb_setrange_bytes(), b"SETRANGE".to_vec());
    assert_eq!(verb_getrange_bytes(), b"GETRANGE".to_vec());
    assert_eq!(verb_mset_bytes(), b"MSET".to_vec());
}
