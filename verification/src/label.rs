//! The printer command text of one label.
use vstd::prelude::*;

use crate::decimal::{decimal, u64_to_string};
use crate::job::Job;

verus! {

/// The barcode data of a field: the code-set letter `B` before its text.
pub open spec fn spec_b128(code: Seq<char>) -> Seq<char> {
    "B"@ + code
}

/// The command text of a label: printer commands around the job's fields,
/// each field printed as text, most of them also as a Code 128 barcode, and
/// a closing 2D code that carries part, lot, date, vendor, quantity, stop
/// time and user.
pub open spec fn spec_mark(
    order: Seq<char>,
    ic: Seq<char>,
    qty: u64,
    start: Seq<char>,
    stop: Seq<char>,
    checksum: Seq<char>,
    rom: Seq<char>,
    vendor: Seq<char>,
    part_type: Seq<char>,
    product_date: Seq<char>,
    batch: Seq<char>,
    user: Seq<char>,
) -> Seq<char> {
    let q = decimal(qty as nat);
    "\x02L\r\nyUGB\r\n1911uC001800040P008P008B9A4B5A5BAC50000\r\n191100201800075: "@ + order
        + "\r\n1e0202001600040"@ + spec_b128(order)
        + "\r\n1911uC001400040P008P008C1CFBAC50000\r\n191100301400065: "@ + ic
        + "\r\n1e0202001200040"@ + spec_b128(ic)
        + "\r\n1911uC001400200P008P008CAFDC1BF0000\r\n191100201400225: "@ + q
        + "\r\n1e0202001200200"@ + spec_b128(q)
        + "\r\n1911uC001000040P008P008BFAACABCCAB1BCE40000\r\n191100201000085: "@ + start
        + "\r\n1911uC001000200P008P008BDE1CAF8CAB1BCE40000\r\n191100201000245: "@ + stop
        + "\r\n191100200800040CHECKSUM: "@ + checksum
        + "\r\n1911uC000800200P008P008B3CCCABDB1E0C2EB0000\r\n191100200800245: "@ + rom
        + "\r\n1911uC000600040P008P008B3A7BCD20000\r\n191100200600065: "@ + vendor
        + "\r\n1e0202000400040"@ + spec_b128(vendor)
        + "\r\n191100200600200TYPE: "@ + part_type
        + "\r\n1911uC000200040P008P008D6C6D4ECC8D5C6DA0000\r\n191100200200090: "@ + product_date
        + "\r\n1e0202000000040"@ + spec_b128(product_date)
        + "\r\n1911uC000200200P008P008B3F6B3A7C5FABAC50000\r\n191100200200250: "@ + batch
        + "\r\n1e0202000000200"@ + spec_b128(batch)
        + "\r\n1W1d4400001300300P"@ + ic
        + ";L"@ + batch
        + ";D"@ + product_date
        + ";V"@ + vendor
        + ";Q"@ + q
        + ";R"@ + stop
        + ";U"@ + user
        + "\r\n\r\nE\r\n"@
}

/// True when `p` is the beginning of `s`.
pub open spec fn starts_with(s: Seq<char>, p: Seq<char>) -> bool {
    p.len() <= s.len() && s.subrange(0, p.len() as int) == p
}

broadcast proof fn lemma_starts_with_extends(s: Seq<char>, t: Seq<char>, p: Seq<char>)
    requires
        starts_with(s, p),
    ensures
        #[trigger] starts_with(s + t, p),
{
    assert((s + t).subrange(0, p.len() as int) =~= s.subrange(0, p.len() as int));
}

/// Every label opens with the printer's start-of-label command (STX, `L`)
/// and closes with an empty line and the end command `E`.
pub proof fn lemma_label_framing(
    order: Seq<char>,
    ic: Seq<char>,
    qty: u64,
    start: Seq<char>,
    stop: Seq<char>,
    checksum: Seq<char>,
    rom: Seq<char>,
    vendor: Seq<char>,
    part_type: Seq<char>,
    product_date: Seq<char>,
    batch: Seq<char>,
    user: Seq<char>,
)
    ensures
        starts_with(
            spec_mark(order, ic, qty, start, stop, checksum, rom, vendor, part_type, product_date, batch, user),
            "\x02L\r\n"@,
        ),
        "\r\n\r\nE\r\n"@.is_suffix_of(
            spec_mark(order, ic, qty, start, stop, checksum, rom, vendor, part_type, product_date, batch, user),
        ),
{
    let m = spec_mark(order, ic, qty, start, stop, checksum, rom, vendor, part_type, product_date, batch, user);
    let head = "\x02L\r\nyUGB\r\n1911uC001800040P008P008B9A4B5A5BAC50000\r\n191100201800075: "@;
    let open_label = "\x02L\r\n"@;
    reveal_strlit("\x02L\r\nyUGB\r\n1911uC001800040P008P008B9A4B5A5BAC50000\r\n191100201800075: ");
    reveal_strlit("\x02L\r\n");
    assert(head.subrange(0, 4) =~= open_label);
    assert(starts_with(head, open_label));
    broadcast use lemma_starts_with_extends;
    let tail = "\r\n\r\nE\r\n"@;
    assert(m.subrange(m.len() - tail.len(), m.len() as int) =~= tail);
}

/// True when `t` occurs as a contiguous part of `s`.
pub open spec fn has_part(s: Seq<char>, t: Seq<char>) -> bool {
    exists|i: int| 0 <= i && i + t.len() <= s.len() && #[trigger] s.subrange(i, i + t.len()) == t
}

broadcast proof fn lemma_has_part_extends(s: Seq<char>, u: Seq<char>, t: Seq<char>)
    requires
        has_part(s, t),
    ensures
        #[trigger] has_part(s + u, t),
{
    let i = choose|i: int| 0 <= i && i + t.len() <= s.len() && #[trigger] s.subrange(i, i + t.len()) == t;
    assert((s + u).subrange(i, i + t.len()) =~= s.subrange(i, i + t.len()));
}

broadcast proof fn lemma_has_part_whole(s: Seq<char>)
    ensures
        #[trigger] has_part(s, s),
{
    let z: int = 0;
    assert(s.subrange(z, z + s.len()) =~= s);
}

broadcast proof fn lemma_has_part_end3(x: Seq<char>, a: Seq<char>, b: Seq<char>, c: Seq<char>)
    ensures
        #[trigger] has_part(((x + a) + b) + c, (a + b) + c),
{
    let s = ((x + a) + b) + c;
    let t = (a + b) + c;
    let i: int = x.len() as int;
    assert(s.subrange(i, i + t.len()) =~= t);
}

broadcast proof fn lemma_has_part_end4(x: Seq<char>, a: Seq<char>, b: Seq<char>, c: Seq<char>, d: Seq<char>)
    ensures
        #[trigger] has_part((((x + a) + b) + c) + d, ((a + b) + c) + d),
{
    let s = (((x + a) + b) + c) + d;
    let t = ((a + b) + c) + d;
    let i: int = x.len() as int;
    assert(s.subrange(i, i + t.len()) =~= t);
}

/// Every field reaches the label whole: each text line carries the field's
/// full text between its line's command and the next one, and each barcode
/// carries `B` and the same full text as the line above it. (A label that
/// cut a part number or an order short, or dropped a field, would lack one
/// of these pieces.)
pub proof fn lemma_label_carries_every_field(
    order: Seq<char>,
    ic: Seq<char>,
    qty: u64,
    start: Seq<char>,
    stop: Seq<char>,
    checksum: Seq<char>,
    rom: Seq<char>,
    vendor: Seq<char>,
    part_type: Seq<char>,
    product_date: Seq<char>,
    batch: Seq<char>,
    user: Seq<char>,
)
    ensures
        ({
            let m = spec_mark(order, ic, qty, start, stop, checksum, rom, vendor, part_type, product_date, batch, user);
            let q = decimal(qty as nat);
            &&& has_part(m, "\x02L\r\nyUGB\r\n1911uC001800040P008P008B9A4B5A5BAC50000\r\n191100201800075: "@ + order
                + "\r\n1e0202001600040"@ + spec_b128(order))
            &&& has_part(m, "\r\n1911uC001400040P008P008C1CFBAC50000\r\n191100301400065: "@ + ic
                + "\r\n1e0202001200040"@ + spec_b128(ic))
            &&& has_part(m, "\r\n1911uC001400200P008P008CAFDC1BF0000\r\n191100201400225: "@ + q
                + "\r\n1e0202001200200"@ + spec_b128(q))
            &&& has_part(m, "\r\n1911uC001000040P008P008BFAACABCCAB1BCE40000\r\n191100201000085: "@ + start
                + "\r\n1911uC001000200P008P008BDE1CAF8CAB1BCE40000\r\n191100201000245: "@)
            &&& has_part(m, "\r\n1911uC001000200P008P008BDE1CAF8CAB1BCE40000\r\n191100201000245: "@ + stop
                + "\r\n191100200800040CHECKSUM: "@)
            &&& has_part(m, "\r\n191100200800040CHECKSUM: "@ + checksum
                + "\r\n1911uC000800200P008P008B3CCCABDB1E0C2EB0000\r\n191100200800245: "@)
            &&& has_part(m, "\r\n1911uC000800200P008P008B3CCCABDB1E0C2EB0000\r\n191100200800245: "@ + rom
                + "\r\n1911uC000600040P008P008B3A7BCD20000\r\n191100200600065: "@)
            &&& has_part(m, "\r\n1911uC000600040P008P008B3A7BCD20000\r\n191100200600065: "@ + vendor
                + "\r\n1e0202000400040"@ + spec_b128(vendor))
            &&& has_part(m, "\r\n191100200600200TYPE: "@ + part_type
                + "\r\n1911uC000200040P008P008D6C6D4ECC8D5C6DA0000\r\n191100200200090: "@)
            &&& has_part(m, "\r\n1911uC000200040P008P008D6C6D4ECC8D5C6DA0000\r\n191100200200090: "@ + product_date
                + "\r\n1e0202000000040"@ + spec_b128(product_date))
            &&& has_part(m, "\r\n1911uC000200200P008P008B3F6B3A7C5FABAC50000\r\n191100200200250: "@ + batch
                + "\r\n1e0202000000200"@ + spec_b128(batch))
            &&& has_part(m, "\r\n1W1d4400001300300P"@ + ic + ";L"@)
            &&& has_part(m, ";L"@ + batch + ";D"@)
            &&& has_part(m, ";D"@ + product_date + ";V"@)
            &&& has_part(m, ";V"@ + vendor + ";Q"@)
            &&& has_part(m, ";Q"@ + q + ";R"@)
            &&& has_part(m, ";R"@ + stop + ";U"@)
            &&& has_part(m, ";U"@ + user + "\r\n\r\nE\r\n"@)
        }),
{
    broadcast use lemma_has_part_extends, lemma_has_part_whole, lemma_has_part_end3, lemma_has_part_end4;
}

/// The barcode of a field is `B` followed by the field's whole text.
pub proof fn lemma_b128_is_b_then_code(code: Seq<char>)
    ensures
        spec_b128(code).len() == code.len() + 1,
        spec_b128(code)[0] == 'B',
        spec_b128(code).skip(1) == code,
{
    reveal_strlit("B");
    assert(spec_b128(code).skip(1) =~= code);
}

/// The barcode data of a field (Code 128, code set B).
pub fn b128(code: &str) -> (res: String)
    ensures
        res@ == spec_b128(code@),
{
    let mut res = String::from_str("B");
    res.append(code);
    res
}

/// Appends `code` to `out` as barcode data.
fn append_b128(out: &mut String, code: &str)
    ensures
        final(out)@ == old(out)@ + spec_b128(code@),
{
    let b = b128(code);
    out.append(b.as_str());
}

/// The command text of the label for the given fields.
pub fn mark(
    order: &str,
    ic: &str,
    qty: &u64,
    start: &str,
    stop: &str,
    checksum: &str,
    rom: &str,
    vendor: &str,
    part_type: &str,
    product_date: &str,
    batch: &str,
    user: &str,
) -> (res: String)
    ensures
        res@ == spec_mark(
            order@,
            ic@,
            *qty,
            start@,
            stop@,
            checksum@,
            rom@,
            vendor@,
            part_type@,
            product_date@,
            batch@,
            user@,
        ),
{
    let qty_text = u64_to_string(*qty);
    let q = qty_text.as_str();
    let mut out = String::from_str(
        "\x02L\r\nyUGB\r\n1911uC001800040P008P008B9A4B5A5BAC50000\r\n191100201800075: ",
    );
    out.append(order);
    out.append("\r\n1e0202001600040");
    append_b128(&mut out, order);
    out.append("\r\n1911uC001400040P008P008C1CFBAC50000\r\n191100301400065: ");
    out.append(ic);
    out.append("\r\n1e0202001200040");
    append_b128(&mut out, ic);
    out.append("\r\n1911uC001400200P008P008CAFDC1BF0000\r\n191100201400225: ");
    out.append(q);
    out.append("\r\n1e0202001200200");
    append_b128(&mut out, q);
    out.append("\r\n1911uC001000040P008P008BFAACABCCAB1BCE40000\r\n191100201000085: ");
    out.append(start);
    out.append("\r\n1911uC001000200P008P008BDE1CAF8CAB1BCE40000\r\n191100201000245: ");
    out.append(stop);
    out.append("\r\n191100200800040CHECKSUM: ");
    out.append(checksum);
    out.append("\r\n1911uC000800200P008P008B3CCCABDB1E0C2EB0000\r\n191100200800245: ");
    out.append(rom);
    out.append("\r\n1911uC000600040P008P008B3A7BCD20000\r\n191100200600065: ");
    out.append(vendor);
    out.append("\r\n1e0202000400040");
    append_b128(&mut out, vendor);
    out.append("\r\n191100200600200TYPE: ");
    out.append(part_type);
    out.append("\r\n1911uC000200040P008P008D6C6D4ECC8D5C6DA0000\r\n191100200200090: ");
    out.append(product_date);
    out.append("\r\n1e0202000000040");
    append_b128(&mut out, product_date);
    out.append("\r\n1911uC000200200P008P008B3F6B3A7C5FABAC50000\r\n191100200200250: ");
    out.append(batch);
    out.append("\r\n1e0202000000200");
    append_b128(&mut out, batch);
    out.append("\r\n1W1d4400001300300P");
    out.append(ic);
    out.append(";L");
    out.append(batch);
    out.append(";D");
    out.append(product_date);
    out.append(";V");
    out.append(vendor);
    out.append(";Q");
    out.append(q);
    out.append(";R");
    out.append(stop);
    out.append(";U");
    out.append(user);
    out.append("\r\n\r\nE\r\n");
    out
}

/// The command text of the label of a job: `mark` applied to the job's
/// fields, the job's lot as batch, its date as product date and its chip as
/// ROM.
pub fn mark_job(job: &Job) -> (res: String)
    ensures
        res@ == spec_mark(
            job.job@,
            job.part@,
            job.qty,
            job.start@,
            job.stop@,
            job.checksum@,
            job.chip@,
            job.vendor@,
            job.part_type@,
            job.date@,
            job.lot@,
            job.user@,
        ),
{
    mark(
        job.job.as_str(),
        job.part.as_str(),
        &job.qty,
        job.start.as_str(),
        job.stop.as_str(),
        job.checksum.as_str(),
        job.chip.as_str(),
        job.vendor.as_str(),
        job.part_type.as_str(),
        job.date.as_str(),
        job.lot.as_str(),
        job.user.as_str(),
    )
}

} // verus!
