use avc::decimal::{i64_to_string, parse_i64, parse_u64, u64_to_string};
use avc::job::Job;
use avc::label::{b128, mark, mark_job};

#[test]
fn test_mark() -> () {
    assert_eq!(
        mark("0", "1", &2, "3", "4", "5", "6", "7", "8", "9", "10", "11"),
        "\x02L\r\n\
yUGB\r\n\
1911uC001800040P008P008B9A4B5A5BAC50000\r\n\
191100201800075: 0\r\n\
1e0202001600040B0\r\n\
1911uC001400040P008P008C1CFBAC50000\r\n\
191100301400065: 1\r\n\
1e0202001200040B1\r\n\
1911uC001400200P008P008CAFDC1BF0000\r\n\
191100201400225: 2\r\n\
1e0202001200200B2\r\n\
1911uC001000040P008P008BFAACABCCAB1BCE40000\r\n\
191100201000085: 3\r\n\
1911uC001000200P008P008BDE1CAF8CAB1BCE40000\r\n\
191100201000245: 4\r\n\
191100200800040CHECKSUM: 5\r\n\
1911uC000800200P008P008B3CCCABDB1E0C2EB0000\r\n\
191100200800245: 6\r\n\
1911uC000600040P008P008B3A7BCD20000\r\n\
191100200600065: 7\r\n\
1e0202000400040B7\r\n\
191100200600200TYPE: 8\r\n\
1911uC000200040P008P008D6C6D4ECC8D5C6DA0000\r\n\
191100200200090: 9\r\n\
1e0202000000040B9\r\n\
1911uC000200200P008P008B3F6B3A7C5FABAC50000\r\n\
191100200200250: 10\r\n\
1e0202000000200B10\r\n\
1W1d4400001300300P1;L10;D9;V7;Q2;R4;U11\r\n\
\r\n\
E\r\n\
"
    );
}

#[test]
fn b128_prefixes_code_set_b() {
    assert_eq!(b128("A5931GES"), "BA5931GES");
    assert_eq!(b128(""), "B");
}

#[test]
fn quantity_is_written_in_decimal() {
    let label = mark("WO1", "P1", &5990, "s", "t", "c", "r", "v", "ty", "d", "l", "u");
    assert!(label.contains("191100201400225: 5990\r\n1e0202001200200B5990\r\n"));
    assert!(label.contains(";Q5990;Rt;Uu\r\n"));
    let zero = mark("", "", &0, "", "", "", "", "", "", "", "", "");
    assert!(zero.contains("191100201400225: 0\r\n1e0202001200200B0\r\n"));
}

#[test]
fn decimal_text_of_integers() {
    assert_eq!(u64_to_string(0), "0");
    assert_eq!(u64_to_string(7), "7");
    assert_eq!(u64_to_string(10), "10");
    assert_eq!(u64_to_string(5990), "5990");
    assert_eq!(u64_to_string(u64::MAX), u64::MAX.to_string());
    assert_eq!(i64_to_string(0), "0");
    assert_eq!(i64_to_string(-12), "-12");
    assert_eq!(i64_to_string(i64::MAX), i64::MAX.to_string());
    assert_eq!(i64_to_string(i64::MIN), i64::MIN.to_string());
}

fn sample_job() -> Job {
    Job {
        jid: 3,
        job: "WO119B0849".to_string(),
        part: "A502000699-1".to_string(),
        qty: 5990,
        start: "2019-11-30 13:10:00".to_string(),
        stop: "2019-11-30 19:48:16".to_string(),
        checksum: "7AF".to_string(),
        chip: "L036A".to_string(),
        vendor: "ALLEGRO".to_string(),
        part_type: "A5931GES".to_string(),
        date: "19/11/30".to_string(),
        lot: "1927693LBCA".to_string(),
        user: "SZ123456".to_string(),
    }
}

#[test]
fn mark_job_marks_the_job_fields() {
    let j = sample_job();
    assert_eq!(
        mark_job(&j),
        mark(
            "WO119B0849",
            "A502000699-1",
            &5990,
            "2019-11-30 13:10:00",
            "2019-11-30 19:48:16",
            "7AF",
            "L036A",
            "ALLEGRO",
            "A5931GES",
            "19/11/30",
            "1927693LBCA",
            "SZ123456"
        )
    );
    let label = mark_job(&j);
    assert!(label.starts_with("\x02L\r\n"));
    assert!(label.ends_with("\r\n\r\nE\r\n"));
    assert!(label.contains(
        "1W1d4400001300300PA502000699-1;L1927693LBCA;D19/11/30;VALLEGRO;Q5990;R2019-11-30 19:48:16;USZ123456\r\n"
    ));
}

#[test]
fn new_job_is_empty() {
    let j = Job::new();
    assert_eq!(j.jid, 0);
    assert_eq!(j.qty, 0);
    assert!(j.job.is_empty() && j.part.is_empty() && j.start.is_empty() && j.stop.is_empty());
    assert!(j.checksum.is_empty() && j.chip.is_empty() && j.vendor.is_empty());
    assert!(j.part_type.is_empty() && j.date.is_empty() && j.lot.is_empty() && j.user.is_empty());
}

#[test]
fn integer_text_parses_like_from_str() {
    for t in ["0", "+0", "-0", "12", "+12", "-12", "007", "", "+", "-", "1 ", " 1", "1a",
              "18446744073709551615", "18446744073709551616", "9223372036854775807",
              "9223372036854775808", "-9223372036854775808", "-9223372036854775809", "٣"] {
        assert_eq!(parse_u64(t), t.parse::<u64>().ok(), "{:?}", t);
        assert_eq!(parse_i64(t), t.parse::<i64>().ok(), "{:?}", t);
    }
    for n in [0u64, 9, 10, 5990, u64::MAX] {
        assert_eq!(parse_u64(&u64_to_string(n)), Some(n));
    }
    for i in [0i64, -1, 42, i64::MIN, i64::MAX] {
        assert_eq!(parse_i64(&i64_to_string(i)), Some(i));
    }
}
