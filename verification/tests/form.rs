use avc::form::{home_page, job_form, job_query, job_uri, query_value, try_job_form, PAGE_SIZE};
use avc::job::Job;
use avc::paths::{db, path_join};

fn sample_job() -> Job {
    Job {
        jid: 3,
        job: "WO1".to_string(),
        part: "P-1".to_string(),
        qty: 12,
        start: "a".to_string(),
        stop: "b".to_string(),
        checksum: "7AF".to_string(),
        chip: "c".to_string(),
        vendor: "v".to_string(),
        part_type: "t".to_string(),
        date: "19/11/30".to_string(),
        lot: "l".to_string(),
        user: "u".to_string(),
    }
}

#[test]
fn empty_query_shows_the_default_job() {
    let j = job_form(
        None, None, None, None, None, None, None, None, None, None, None, None, None,
    );
    assert_eq!(j.jid, 0);
    assert_eq!(j.job, "WO119B0849");
    assert_eq!(j.part, "A502000699-1");
    assert_eq!(j.qty, 5990);
    assert_eq!(j.start, "2019-11-30 13:10:00");
    assert_eq!(j.stop, "2019-11-30 19:48:16");
    assert_eq!(j.checksum, "7AF");
    assert_eq!(j.chip, "L036A");
    assert_eq!(j.vendor, "ALLEGRO");
    assert_eq!(j.part_type, "A5931GES");
    assert_eq!(j.date, "19/11/30");
    assert_eq!(j.lot, "1927693LBCA");
    assert_eq!(j.user, "SZ123456");
}

#[test]
fn query_values_are_url_decoded() {
    let j = try_job_form(
        Some("7"),
        Some("WO%201"),
        Some("A+B"),
        Some("3"),
        Some("2019-11-30%2013:10:00"),
        None,
        Some("%zz"),
        Some("%41%62"),
        Some("%E9%9B%B7"),
        Some("%"),
        None,
        None,
        Some("plain"),
    )
    .unwrap();
    assert_eq!(j.jid, 7);
    assert_eq!(j.qty, 3);
    assert_eq!(j.job, "WO 1");
    assert_eq!(j.part, "A B");
    assert_eq!(j.start, "2019-11-30 13:10:00");
    assert_eq!(j.stop, "2019-11-30 19:48:16");
    assert_eq!(j.checksum, "%zz");
    assert_eq!(j.chip, "Ab");
    assert_eq!(j.vendor, "\u{96f7}");
    assert_eq!(j.part_type, "%");
    assert_eq!(j.user, "plain");
}

#[test]
fn numbers_are_read_from_their_decoded_text() {
    let j = job_form(
        Some("x"), None, None, Some("-1"), None, None, None, None, None, None, None, None, None,
    );
    assert_eq!(j.jid, 0);
    assert_eq!(j.qty, 5990);
    // `+` decodes to a space, which no number may hold.
    let j = job_form(
        Some("-42"), None, None, Some("+8"), None, None, None, None, None, None, None, None, None,
    );
    assert_eq!(j.jid, -42);
    assert_eq!(j.qty, 5990);
    let j = job_form(
        Some("%31"), None, None, Some("%2B8"), None, None, None, None, None, None, None, None, None,
    );
    assert_eq!(j.jid, 1);
    assert_eq!(j.qty, 8);
    let j = job_form(
        Some("%FF"), None, None, Some("%C3"), None, None, None, None, None, None, None, None, None,
    );
    assert_eq!(j.jid, 0);
    assert_eq!(j.qty, 5990);
    let j = job_form(
        Some("9223372036854775808"), None, None, Some("18446744073709551616"),
        None, None, None, None, None, None, None, None, None,
    );
    assert_eq!(j.jid, 0);
    assert_eq!(j.qty, 5990);
}

#[test]
fn invalid_utf8_in_a_value_is_refused() {
    let r = try_job_form(
        None, Some("%FF"), None, None, None, None, None, None, None, None, None, None, None,
    );
    assert!(r.is_none());
    let r = try_job_form(
        None, None, None, None, None, None, None, None, None, None, None, None, Some("%C3"),
    );
    assert!(r.is_none());
}

fn encode_spaces(s: &str) -> String {
    s.replace(' ', "%20")
}

#[test]
fn plain_job_comes_back_through_its_link() {
    let mut j = sample_job();
    j.start = "2019-11-30 13:10:00".to_string();
    j.jid = -7;
    let link = job_query(&j);
    let query = encode_spaces(link.strip_prefix("job?").unwrap());
    let raw = |name: &str| query_value(&query, name);
    let shown = try_job_form(
        raw("jid").as_deref(),
        raw("job").as_deref(),
        raw("part").as_deref(),
        raw("qty").as_deref(),
        raw("start").as_deref(),
        raw("stop").as_deref(),
        raw("checksum").as_deref(),
        raw("chip").as_deref(),
        raw("vendor").as_deref(),
        raw("part_type").as_deref(),
        raw("date").as_deref(),
        raw("lot").as_deref(),
        raw("user").as_deref(),
    )
    .unwrap();
    assert_eq!(shown, j);
}

#[test]
fn query_values_are_found_by_name() {
    let q = "a=1&bb=x=y&c&d=&a=2";
    assert_eq!(query_value(q, "a").as_deref(), Some("1"));
    assert_eq!(query_value(q, "bb").as_deref(), Some("x=y"));
    assert_eq!(query_value(q, "c").as_deref(), Some(""));
    assert_eq!(query_value(q, "d").as_deref(), Some(""));
    assert_eq!(query_value(q, "e"), None);
    assert_eq!(query_value("", "a"), None);
    assert_eq!(query_value("x%20y=1", "x%20y").as_deref(), Some("1"));
}

#[test]
fn job_link_carries_every_field() {
    let j = sample_job();
    assert_eq!(
        job_query(&j),
        "job?jid=3&job=WO1&part=P-1&qty=12&start=a&stop=b&checksum=7AF&chip=c&vendor=v&part_type=t&date=19/11/30&lot=l&user=u"
    );
    let mut neg = sample_job();
    neg.jid = -5;
    assert!(job_query(&neg).starts_with("job?jid=-5&job="));
    assert_eq!(
        job_uri(&j),
        format!("http://localhost:8000/{}", job_query(&j))
    );
}

#[test]
fn home_pages_by_ten() {
    assert_eq!(PAGE_SIZE, 10);
    assert_eq!(home_page(None, 25), (25, Some(15)));
    assert_eq!(home_page(Some(11), 25), (11, Some(1)));
    assert_eq!(home_page(Some(10), 25), (10, None));
    assert_eq!(home_page(None, 0), (0, None));
    assert_eq!(home_page(Some(-3), 25), (-3, None));
    assert_eq!(home_page(Some(i64::MIN), 25), (i64::MIN, None));
}

#[test]
fn paths_join_like_pathbuf() {
    assert_eq!(path_join("/home/u", "avc"), "/home/u/avc");
    assert_eq!(path_join("/home/u/", "avc"), "/home/u/avc");
    assert_eq!(path_join("", "avc"), "avc");
    assert_eq!(path_join("/home/u", "/etc"), "/etc");
    assert_eq!(path_join("a", ""), "a/");
    assert_eq!(db("/home/u/avc"), "/home/u/avc/jobs.db");
    for (base, name) in [("/home/u", "avc"), ("/home/u/", "jobs.db"), ("", "x"), ("a", "/b")] {
        let expected = std::path::PathBuf::from(base).join(name);
        assert_eq!(path_join(base, name), expected.to_str().unwrap());
    }
}
