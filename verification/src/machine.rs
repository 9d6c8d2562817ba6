//! The job that the tray's "Print" entry reads from the handler machine's
//! status service: JSON values, the fields it looks up in them, and the
//! message it reports when one is missing or of the wrong kind.
use vstd::prelude::*;

use crate::job::Job;

verus! {

/// A JSON value, as the status service answers it. Numbers keep the
/// distinction the JSON reader makes: non-negative integers, negative
/// integers, and the other numbers (whose value the logic never reads).
/// An object's entries come in the order read; the JSON reader keeps each
/// key once, and where a key repeats here its first entry counts.
pub enum Json {
    Null,
    Bool(bool),
    PosInt(u64),
    NegInt(i64),
    Float,
    Str(String),
    Array(Vec<Json>),
    Object(Vec<(String, Json)>),
}

/// The value of the first entry at or after `i` whose key is `key`.
pub open spec fn spec_find(entries: Seq<(String, Json)>, key: Seq<char>, i: int) -> Option<Json>
    decreases entries.len() - i,
{
    if i < 0 || i >= entries.len() {
        None
    } else if entries[i].0@ == key {
        Some(entries[i].1)
    } else {
        spec_find(entries, key, i + 1)
    }
}

/// The member `key` of an object; nothing for other values.
pub open spec fn spec_get(v: Json, key: Seq<char>) -> Option<Json> {
    match v {
        Json::Object(entries) => spec_find(entries@, key, 0),
        _ => None,
    }
}

/// The value of an integer that fits in `i64`.
pub open spec fn spec_as_i64(v: Json) -> Option<i64> {
    match v {
        Json::PosInt(u) => if u <= i64::MAX {
            Some(u as i64)
        } else {
            None
        },
        Json::NegInt(i) => Some(i),
        _ => None,
    }
}

/// The text of a string.
pub open spec fn spec_as_str(v: Json) -> Option<Seq<char>> {
    match v {
        Json::Str(s) => Some(s@),
        _ => None,
    }
}

impl Json {
    /// The member `key` of an object.
    pub fn get(&self, key: &str) -> (res: Option<&Json>)
        ensures
            match res {
                Some(f) => spec_get(*self, key@) == Some(*f),
                None => spec_get(*self, key@) is None,
            },
    {
        match self {
            Json::Object(entries) => {
                let k = String::from_str(key);
                let mut i: usize = 0;
                while i < entries.len()
                    invariant
                        0 <= i <= entries.len(),
                        k@ == key@,
                        spec_get(*self, key@) == spec_find(entries@, key@, 0),
                        spec_find(entries@, key@, 0) == spec_find(entries@, key@, i as int),
                    decreases entries.len() - i,
                {
                    if entries[i].0 == k {
                        return Some(&entries[i].1);
                    }
                    i = i + 1;
                }
                None
            },
            _ => None,
        }
    }

    /// True of objects.
    pub fn is_object(&self) -> (res: bool)
        ensures
            res == (*self is Object),
    {
        match self {
            Json::Object(_) => true,
            _ => false,
        }
    }

    /// The value of an integer that fits in `i64`.
    pub fn as_i64(&self) -> (res: Option<i64>)
        ensures
            res == spec_as_i64(*self),
    {
        match self {
            Json::PosInt(u) => if *u <= 9223372036854775807u64 {
                Some(*u as i64)
            } else {
                None
            },
            Json::NegInt(i) => Some(*i),
            _ => None,
        }
    }

    /// The text of a string.
    pub fn as_str(&self) -> (res: Option<&str>)
        ensures
            match res {
                Some(s) => spec_as_str(*self) == Some(s@),
                None => spec_as_str(*self) is None,
            },
    {
        match self {
            Json::Str(s) => Some(s.as_str()),
            _ => None,
        }
    }
}

/// The message for a member that is absent.
pub open spec fn missing(key: Seq<char>) -> Seq<char> {
    "no "@ + key
}

/// The message for a member of the wrong kind.
pub open spec fn invalid(key: Seq<char>) -> Seq<char> {
    "invalid "@ + key
}

/// The member `key` of `v`, which must be an object.
pub open spec fn spec_object_field(v: Json, key: Seq<char>) -> Result<Json, Seq<char>> {
    match spec_get(v, key) {
        None => Err(missing(key)),
        Some(f) => if f is Object {
            Ok(f)
        } else {
            Err(invalid(key))
        },
    }
}

/// The member `key` of `v`, which must be an integer that fits in `i64`.
pub open spec fn spec_int_field(v: Json, key: Seq<char>) -> Result<i64, Seq<char>> {
    match spec_get(v, key) {
        None => Err(missing(key)),
        Some(f) => match spec_as_i64(f) {
            Some(i) => Ok(i),
            None => Err(invalid(key)),
        },
    }
}

/// The member `key` of `v`, which must be a string.
pub open spec fn spec_str_field(v: Json, key: Seq<char>) -> Result<Seq<char>, Seq<char>> {
    match spec_get(v, key) {
        None => Err(missing(key)),
        Some(f) => match spec_as_str(f) {
            Some(s) => Ok(s),
            None => Err(invalid(key)),
        },
    }
}

/// The member `key` of `v`, which must be a string where present; the
/// default text where it is absent.
pub open spec fn spec_str_field_or(v: Json, key: Seq<char>, default: Seq<char>) -> Result<Seq<char>, Seq<char>> {
    match spec_get(v, key) {
        None => Ok(default),
        Some(f) => match spec_as_str(f) {
            Some(s) => Ok(s),
            None => Err(invalid(key)),
        },
    }
}

/// The error of a lookup, if it failed.
pub open spec fn err_of<T>(r: Result<T, Seq<char>>) -> Option<Seq<char>> {
    match r {
        Ok(_) => None,
        Err(e) => Some(e),
    }
}

/// The job payload of the job statistics answer.
pub open spec fn spec_job_payload(job_info: Json) -> Json {
    spec_object_field(job_info, "payload"@)->Ok_0
}

/// The project description in the project statistics answer.
pub open spec fn spec_pinfo(project_info: Json) -> Json {
    spec_object_field(spec_object_field(project_info, "payload"@)->Ok_0, "pinfo"@)->Ok_0
}

/// The first lookup that fails, in the order the tray makes them: the two
/// payloads, the project description, then the job's fields.
pub open spec fn spec_machine_error(job_info: Json, project_info: Json) -> Option<Seq<char>> {
    let jp = spec_job_payload(job_info);
    let pinfo = spec_pinfo(project_info);
    if let Some(e) = err_of(spec_object_field(project_info, "payload"@)) {
        Some(e)
    } else if let Some(e) = err_of(spec_object_field(job_info, "payload"@)) {
        Some(e)
    } else if let Some(e) = err_of(
        spec_object_field(spec_object_field(project_info, "payload"@)->Ok_0, "pinfo"@),
    ) {
        Some(e)
    } else if let Some(e) = err_of(spec_int_field(jp, "rowid"@)) {
        Some(e)
    } else if let Some(e) = err_of(spec_str_field(pinfo, "device"@)) {
        Some(e)
    } else if let Some(e) = err_of(spec_int_field(jp, "qty"@)) {
        Some(e)
    } else if let Some(e) = err_of(spec_str_field(jp, "start_at"@)) {
        Some(e)
    } else if let Some(e) = err_of(spec_str_field(jp, "stop_at"@)) {
        Some(e)
    } else if let Some(e) = err_of(spec_str_field(pinfo, "checksum"@)) {
        Some(e)
    } else if let Some(e) = err_of(spec_str_field_or(pinfo, "vendor"@, "no vendor"@)) {
        Some(e)
    } else if let Some(e) = err_of(spec_str_field_or(pinfo, "part_type"@, "no part_type"@)) {
        Some(e)
    } else {
        None
    }
}

fn missing_message(key: &str) -> (m: String)
    ensures
        m@ == missing(key@),
{
    let mut m = String::from_str("no ");
    m.append(key);
    m
}

fn invalid_message(key: &str) -> (m: String)
    ensures
        m@ == invalid(key@),
{
    let mut m = String::from_str("invalid ");
    m.append(key);
    m
}

fn object_field<'a>(v: &'a Json, key: &str) -> (res: Result<&'a Json, String>)
    ensures
        match res {
            Ok(f) => spec_object_field(*v, key@) == Ok::<Json, Seq<char>>(*f),
            Err(e) => spec_object_field(*v, key@) == Err::<Json, Seq<char>>(e@),
        },
{
    match v.get(key) {
        None => Err(missing_message(key)),
        Some(f) => if f.is_object() {
            Ok(f)
        } else {
            Err(invalid_message(key))
        },
    }
}

fn int_field(v: &Json, key: &str) -> (res: Result<i64, String>)
    ensures
        match res {
            Ok(i) => spec_int_field(*v, key@) == Ok::<i64, Seq<char>>(i),
            Err(e) => spec_int_field(*v, key@) == Err::<i64, Seq<char>>(e@),
        },
{
    match v.get(key) {
        None => Err(missing_message(key)),
        Some(f) => match f.as_i64() {
            Some(i) => Ok(i),
            None => Err(invalid_message(key)),
        },
    }
}

fn str_field(v: &Json, key: &str) -> (res: Result<String, String>)
    ensures
        match res {
            Ok(s) => spec_str_field(*v, key@) == Ok::<Seq<char>, Seq<char>>(s@),
            Err(e) => spec_str_field(*v, key@) == Err::<Seq<char>, Seq<char>>(e@),
        },
{
    match v.get(key) {
        None => Err(missing_message(key)),
        Some(f) => match f.as_str() {
            Some(s) => Ok(String::from_str(s)),
            None => Err(invalid_message(key)),
        },
    }
}

fn str_field_or(v: &Json, key: &str, default: &str) -> (res: Result<String, String>)
    ensures
        match res {
            Ok(s) => spec_str_field_or(*v, key@, default@) == Ok::<Seq<char>, Seq<char>>(s@),
            Err(e) => spec_str_field_or(*v, key@, default@) == Err::<Seq<char>, Seq<char>>(e@),
        },
{
    match v.get(key) {
        None => Ok(String::from_str(default)),
        Some(f) => match f.as_str() {
            Some(s) => Ok(String::from_str(s)),
            None => Err(invalid_message(key)),
        },
    }
}

/// The job read from the two statistics answers: the job id, quantity,
/// start and stop time from the job payload; the device, checksum, vendor
/// and type from the project description; the given date; the other texts
/// empty. A negative quantity is read as `u64`, wrapping.
pub open spec fn spec_machine_job(j: Job, job_info: Json, project_info: Json, date: Seq<char>) -> bool {
    let jp = spec_job_payload(job_info);
    let pinfo = spec_pinfo(project_info);
    &&& j.jid == spec_int_field(jp, "rowid"@)->Ok_0
    &&& j.date@ == date
    &&& j.job@ == Seq::<char>::empty()
    &&& j.part@ == spec_str_field(pinfo, "device"@)->Ok_0
    &&& j.qty == (spec_int_field(jp, "qty"@)->Ok_0) as u64
    &&& j.start@ == spec_str_field(jp, "start_at"@)->Ok_0
    &&& j.stop@ == spec_str_field(jp, "stop_at"@)->Ok_0
    &&& j.checksum@ == spec_str_field(pinfo, "checksum"@)->Ok_0
    &&& j.chip@ == Seq::<char>::empty()
    &&& j.vendor@ == spec_str_field_or(pinfo, "vendor"@, "no vendor"@)->Ok_0
    &&& j.part_type@ == spec_str_field_or(pinfo, "part_type"@, "no part_type"@)->Ok_0
    &&& j.lot@ == Seq::<char>::empty()
    &&& j.user@ == Seq::<char>::empty()
}

/// The job to print for what the status service reports: the job id,
/// quantity, start and stop time from the job statistics' payload; the
/// device, checksum, vendor and type from the project statistics' project
/// description; the given date; the other texts empty. The first lookup that
/// fails gives the error message (`no <key>` or `invalid <key>`). A negative
/// quantity is read as `u64`, wrapping.
pub fn job_from_machine(job_info: &Json, project_info: &Json, date: &str) -> (res: Result<Job, String>)
    ensures
        res is Ok <==> spec_machine_error(*job_info, *project_info) is None,
        res matches Err(e) ==> spec_machine_error(*job_info, *project_info) == Some(e@),
        res matches Ok(j) ==> spec_machine_job(j, *job_info, *project_info, date@),
{
    let project_payload = object_field(project_info, "payload")?;
    let job_payload = object_field(job_info, "payload")?;
    let pinfo = object_field(project_payload, "pinfo")?;
    let jid = int_field(job_payload, "rowid")?;
    let part = str_field(pinfo, "device")?;
    let qty = int_field(job_payload, "qty")?;
    let start = str_field(job_payload, "start_at")?;
    let stop = str_field(job_payload, "stop_at")?;
    let checksum = str_field(pinfo, "checksum")?;
    let vendor = str_field_or(pinfo, "vendor", "no vendor")?;
    let part_type = str_field_or(pinfo, "part_type", "no part_type")?;
    Ok(Job {
        jid,
        date: String::from_str(date),
        job: String::new(),
        part,
        qty: qty as u64,
        start,
        stop,
        checksum,
        chip: String::new(),
        vendor,
        part_type,
        lot: String::new(),
        user: String::new(),
    })
}

/// A string member is read as it is, whatever its text, the empty text
/// included; only a member that is not a string is invalid.
pub proof fn lemma_string_member_is_read(v: Json, key: Seq<char>, s: String, default: Seq<char>)
    requires
        spec_get(v, key) == Some(Json::Str(s)),
    ensures
        spec_str_field(v, key) == Ok::<Seq<char>, Seq<char>>(s@),
        spec_str_field_or(v, key, default) == Ok::<Seq<char>, Seq<char>>(s@),
{
}

/// An integer member that fits in `i64` is read as its value.
pub proof fn lemma_integer_member_is_read(v: Json, key: Seq<char>, i: i64)
    requires
        spec_get(v, key) == Some(Json::NegInt(i)) || (i >= 0 && spec_get(v, key) == Some(Json::PosInt(i as u64))),
    ensures
        spec_int_field(v, key) == Ok::<i64, Seq<char>>(i),
{
}

/// An absent member is reported as `no <key>`; a member of the wrong kind as
/// `invalid <key>`.
pub proof fn lemma_lookup_messages(v: Json, key: Seq<char>)
    ensures
        spec_get(v, key) is None ==> {
            &&& spec_object_field(v, key) == Err::<Json, Seq<char>>("no "@ + key)
            &&& spec_int_field(v, key) == Err::<i64, Seq<char>>("no "@ + key)
            &&& spec_str_field(v, key) == Err::<Seq<char>, Seq<char>>("no "@ + key)
        },
        spec_get(v, key) matches Some(f) && !(f is Object) ==> spec_object_field(v, key) == Err::<Json, Seq<char>>(
            "invalid "@ + key,
        ),
        spec_get(v, key) matches Some(f) && !(f is Str) ==> {
            &&& spec_str_field(v, key) == Err::<Seq<char>, Seq<char>>("invalid "@ + key)
            &&& spec_str_field_or(v, key, "x"@) == Err::<Seq<char>, Seq<char>>("invalid "@ + key)
        },
        spec_get(v, key) matches Some(f) && (f is Str || f is Null || f is Bool || f is Float || f is Array
            || f is Object) ==> spec_int_field(v, key) == Err::<i64, Seq<char>>("invalid "@ + key),
{
}

/// True when `v` has the member `key` and it is a string.
pub open spec fn has_string(v: Json, key: Seq<char>) -> bool {
    spec_get(v, key) matches Some(Json::Str(_))
}

/// True when `v` has the member `key` and it is an integer that fits in
/// `i64`.
pub open spec fn has_i64(v: Json, key: Seq<char>) -> bool {
    ||| spec_get(v, key) matches Some(Json::NegInt(_))
    ||| spec_get(v, key) matches Some(Json::PosInt(u)) && u <= i64::MAX
}

/// The tray prints for every pair of answers of the right shape: the two
/// payloads and the project description are objects, the job id and
/// quantity are integers, start, stop, device and checksum are strings of
/// any text (empty ones too), vendor and type are strings or absent. Each
/// text of the job is then the member's string.
pub proof fn lemma_well_formed_answers_print(
    job_info: Json,
    project_info: Json,
    job_payload: Json,
    project_payload: Json,
    pinfo: Json,
)
    requires
        spec_get(project_info, "payload"@) == Some(project_payload),
        project_payload is Object,
        spec_get(job_info, "payload"@) == Some(job_payload),
        job_payload is Object,
        spec_get(project_payload, "pinfo"@) == Some(pinfo),
        pinfo is Object,
        has_i64(job_payload, "rowid"@),
        has_i64(job_payload, "qty"@),
        has_string(job_payload, "start_at"@),
        has_string(job_payload, "stop_at"@),
        has_string(pinfo, "device"@),
        has_string(pinfo, "checksum"@),
        spec_get(pinfo, "vendor"@) is None || has_string(pinfo, "vendor"@),
        spec_get(pinfo, "part_type"@) is None || has_string(pinfo, "part_type"@),
    ensures
        spec_machine_error(job_info, project_info) is None,
        spec_job_payload(job_info) == job_payload,
        spec_pinfo(project_info) == pinfo,
        spec_str_field(job_payload, "start_at"@) == Ok::<Seq<char>, Seq<char>>(
            spec_as_str(spec_get(job_payload, "start_at"@)->Some_0)->Some_0,
        ),
        spec_str_field(job_payload, "stop_at"@) == Ok::<Seq<char>, Seq<char>>(
            spec_as_str(spec_get(job_payload, "stop_at"@)->Some_0)->Some_0,
        ),
        spec_str_field(pinfo, "device"@) == Ok::<Seq<char>, Seq<char>>(
            spec_as_str(spec_get(pinfo, "device"@)->Some_0)->Some_0,
        ),
        spec_str_field(pinfo, "checksum"@) == Ok::<Seq<char>, Seq<char>>(
            spec_as_str(spec_get(pinfo, "checksum"@)->Some_0)->Some_0,
        ),
{
}

/// `serde_json::Value`, the JSON reader's value.
#[verifier::external_type_specification]
#[verifier::external_body]
pub struct ExJsonValue(serde_json::Value);

/// What `serde_json::from_slice::<serde_json::Value>` makes of the bytes:
/// the value read, or the text of the reader's error.
pub uninterp spec fn spec_parse_json(bytes: Seq<u8>) -> Result<Json, Seq<char>>;

/// A `serde_json::Value` in the library's own form, variant for variant:
/// numbers by the reader's kind (`as_u64`, else `as_i64`, else a float),
/// object entries in the map's order.
#[verifier::external_body]
fn json_of_value(v: &serde_json::Value) -> Json {
    match v {
        serde_json::Value::Null => Json::Null,
        serde_json::Value::Bool(b) => Json::Bool(*b),
        serde_json::Value::Number(n) => match (n.as_u64(), n.as_i64()) {
            (Some(u), _) => Json::PosInt(u),
            (None, Some(i)) => Json::NegInt(i),
            (None, None) => Json::Float,
        },
        serde_json::Value::String(t) => Json::Str(t.clone()),
        serde_json::Value::Array(a) => Json::Array(a.iter().map(json_of_value).collect()),
        serde_json::Value::Object(m) => Json::Object(m.iter().map(|(k, x)| (k.clone(), json_of_value(x))).collect()),
    }
}

/// `serde_json::from_slice::<serde_json::Value>`: reads the bytes as JSON.
/// Its result is a function of the bytes alone, named `spec_parse_json`; the
/// error is the reader's error text (`Display`).
#[verifier::external_body]
fn parse_json(bytes: &[u8]) -> (res: Result<Json, String>)
    ensures
        match res {
            Ok(v) => spec_parse_json(bytes@) == Ok::<Json, Seq<char>>(v),
            Err(e) => spec_parse_json(bytes@) == Err::<Json, Seq<char>>(e@),
        },
{
    match serde_json::from_slice::<serde_json::Value>(bytes) {
        Ok(v) => Ok(json_of_value(&v)),
        Err(e) => Err(e.to_string()),
    }
}

/// Whether one answer of the status service is JSON: the tray reads each
/// answer as it arrives and stops the print at the first that is not, with
/// the reader's error text, before it asks for the next.
pub fn check_answer(bytes: &[u8]) -> (res: Result<(), String>)
    ensures
        res is Ok <==> spec_parse_json(bytes@) is Ok,
        res matches Err(e) ==> spec_parse_json(bytes@) == Err::<Json, Seq<char>>(e@),
{
    match parse_json(bytes) {
        Ok(_) => Ok(()),
        Err(e) => Err(e),
    }
}

/// The first error in reading the four answers of the status service, in
/// the order the tray reads them (machine status, job statistics, project
/// statistics, session statistics), then in looking up the job.
pub open spec fn spec_answers_error(
    machine_status: Seq<u8>,
    job_info: Seq<u8>,
    project_info: Seq<u8>,
    session_info: Seq<u8>,
) -> Option<Seq<char>> {
    if let Some(e) = err_of(spec_parse_json(machine_status)) {
        Some(e)
    } else if let Some(e) = err_of(spec_parse_json(job_info)) {
        Some(e)
    } else if let Some(e) = err_of(spec_parse_json(project_info)) {
        Some(e)
    } else if let Some(e) = err_of(spec_parse_json(session_info)) {
        Some(e)
    } else {
        spec_machine_error(spec_parse_json(job_info)->Ok_0, spec_parse_json(project_info)->Ok_0)
    }
}

/// The job to print for the raw answers of the status service: each answer
/// is read as JSON in turn, the first that is not JSON stops the print with
/// the reader's error text; then the job is looked up in the job and project
/// statistics as `job_from_machine` does.
pub fn job_from_answers(
    machine_status: &[u8],
    job_info: &[u8],
    project_info: &[u8],
    session_info: &[u8],
    date: &str,
) -> (res: Result<Job, String>)
    ensures
        res is Ok <==> spec_answers_error(machine_status@, job_info@, project_info@, session_info@) is None,
        res matches Err(e) ==> spec_answers_error(machine_status@, job_info@, project_info@, session_info@)
            == Some(e@),
        res matches Ok(j) ==> spec_machine_job(
            j,
            spec_parse_json(job_info@)->Ok_0,
            spec_parse_json(project_info@)->Ok_0,
            date@,
        ),
{
    let _machine_status = parse_json(machine_status)?;
    let job_info = parse_json(job_info)?;
    let project_info = parse_json(project_info)?;
    let _session_info = parse_json(session_info)?;
    job_from_machine(&job_info, &project_info, date)
}

} // verus!
