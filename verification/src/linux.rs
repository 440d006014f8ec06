//! Decisions of the Linux SCSI generic (SG_IO) transport: which requests the
//! driver can carry, what its report makes of a transfer, which `/dev` nodes are
//! SCSI generic devices, and how a device selector leads to one.

use vstd::prelude::*;

use crate::scsi::{
    hex_encode, spec_hex_bytes, spec_transfer, transfer_of, ScsiDirection, ScsiResponse,
    TransportError,
};
use crate::text::{
    chars_of, chars_start_with, decimal_chars, hex_padded, push_decimal, push_hex,
    str_starts_with, string_views,
};

verus! {

/// The longest command descriptor block an SG_IO request carries.
pub const SG_MAX_CDB_LEN: usize = 255;

/// Checks a request against what SG_IO can carry and gives its data phase: the
/// command block must hold 1 to 255 bytes, and data may flow one way only.
pub fn sg_transfer_plan(cdb_len: usize, data_out_len: Option<usize>, data_in_len: usize) -> (r:
    Result<(ScsiDirection, usize), TransportError>)
    ensures
        cdb_len == 0 || cdb_len > SG_MAX_CDB_LEN ==> (r matches Err(
            TransportError::InvalidCdbLength(n),
        ) && n == cdb_len),
        1 <= cdb_len <= SG_MAX_CDB_LEN && data_out_len is Some && data_in_len != 0 ==> (r matches Err(
            TransportError::SgIo(m),
        ) && m@ == "bidirectional SG_IO transfers are not supported"@),
        1 <= cdb_len <= SG_MAX_CDB_LEN && !(data_out_len is Some && data_in_len != 0) ==> r == Ok::<
            (ScsiDirection, usize),
            TransportError,
        >(spec_transfer(data_out_len, data_in_len)),
{
    if cdb_len == 0 || cdb_len > SG_MAX_CDB_LEN {
        return Err(TransportError::InvalidCdbLength(cdb_len));
    }
    if data_out_len.is_some() && data_in_len != 0 {
        return Err(
            TransportError::SgIo("bidirectional SG_IO transfers are not supported".to_owned()),
        );
    }
    Ok(transfer_of(data_out_len, data_in_len))
}

/// The text of a failed SG_IO transfer: the driver's status words in hexadecimal
/// and the sense bytes it wrote.
pub open spec fn sg_failure_text(info: u32, host_status: u16, driver_status: u16, sense: Seq<u8>) -> Seq<
    char,
> {
    "transfer failed: info=0x"@ + hex_padded(info as nat, 2) + ", host_status=0x"@ + hex_padded(
        host_status as nat,
        2,
    ) + ", driver_status=0x"@ + hex_padded(driver_status as nat, 2) + ", sense="@
        + spec_hex_bytes(sense)
}

/// The residual count the driver reports, with a negative report read as zero.
pub open spec fn sg_resid(resid: i32) -> nat {
    if resid < 0 {
        0
    } else {
        resid as nat
    }
}

/// What an SG_IO transfer gives once the driver has answered. The lowest bit of
/// `info` flags a failure, reported with the first `sb_len_wr` sense bytes (at
/// most as many as the buffer holds); otherwise the data read is cut short by the
/// residual count.
pub fn sg_transfer_outcome(
    info: u32,
    host_status: u16,
    driver_status: u16,
    sense: &[u8],
    sb_len_wr: u8,
    resid: i32,
    data_in: Vec<u8>,
) -> (r: Result<ScsiResponse, TransportError>)
    ensures
        info % 2 == 1 ==> (r matches Err(TransportError::SgIo(m)) && m@ == sg_failure_text(
            info,
            host_status,
            driver_status,
            sense@.subrange(
                0,
                if (sb_len_wr as int) < sense@.len() {
                    sb_len_wr as int
                } else {
                    sense@.len() as int
                },
            ),
        )),
        info % 2 == 0 ==> (r matches Ok(resp) && resp.resid == sg_resid(resid) && resp.data@
            == data_in@.subrange(
            0,
            if sg_resid(resid) <= data_in@.len() {
                data_in@.len() - sg_resid(resid)
            } else {
                0
            },
        )),
{
    if info % 2 == 1 {
        let sense_len: usize = if (sb_len_wr as usize) < sense.len() {
            sb_len_wr as usize
        } else {
            sense.len()
        };
        let mut msg = "transfer failed: info=0x".to_owned();
        push_hex(&mut msg, info as u64, 2);
        msg.append(", host_status=0x");
        push_hex(&mut msg, host_status as u64, 2);
        msg.append(", driver_status=0x");
        push_hex(&mut msg, driver_status as u64, 2);
        msg.append(", sense=");
        let hex = hex_encode(vstd::slice::slice_subrange(sense, 0, sense_len));
        msg.append(hex.as_str());
        return Err(TransportError::SgIo(msg));
    }
    let resid_len: usize = if resid < 0 {
        0
    } else {
        resid as usize
    };
    let valid_len: usize = if resid_len <= data_in.len() {
        data_in.len() - resid_len
    } else {
        0
    };
    let mut data = data_in;
    data.truncate(valid_len);
    Ok(ScsiResponse { data, resid: resid_len })
}

/// `Path::join` on Unix: an absolute name replaces the directory; otherwise one
/// `/` separates the two, unless the directory is empty or already ends with one.
pub open spec fn spec_path_join(dir: Seq<char>, name: Seq<char>) -> Seq<char> {
    if name.len() > 0 && name[0] == '/' {
        name
    } else if dir.len() == 0 || dir.last() == '/' {
        dir + name
    } else {
        dir + seq!['/'] + name
    }
}

/// Joins a name onto a directory path.
pub fn path_join(dir: &str, name: &str) -> (r: String)
    ensures
        r@ == spec_path_join(dir@, name@),
{
    proof {
        reveal_strlit("/");
    }
    let absolute = str_starts_with(name, "/");
    proof {
        if name@.len() > 0 {
            assert(name@.subrange(0, 1)[0] == name@[0]);
            if name@[0] == '/' {
                assert(name@.subrange(0, 1) =~= "/"@);
            }
        }
    }
    if absolute {
        return name.to_owned();
    }
    let n = dir.unicode_len();
    let mut s = dir.to_owned();
    if n > 0 && dir.get_char(n - 1) != '/' {
        s.append("/");
    }
    s.append(name);
    s
}

/// Whether a directory entry names a SCSI generic node: its name starts with `sg`.
pub open spec fn is_sg_name(name: Seq<char>) -> bool {
    chars_start_with(name, "sg"@)
}

/// The paths, under `dir`, of the entries whose names mark SCSI generic nodes, in
/// the order of the entries.
pub open spec fn sg_paths_in(dir: Seq<char>, names: Seq<Seq<char>>) -> Seq<Seq<char>>
    decreases names.len(),
{
    if names.len() == 0 {
        Seq::empty()
    } else {
        let rest = sg_paths_in(dir, names.drop_last());
        if is_sg_name(names.last()) {
            rest.push(spec_path_join(dir, names.last()))
        } else {
            rest
        }
    }
}

/// What the `device/scsi_generic` entries of a block device make of the lookup:
/// exactly one distinct SCSI generic node under `dev_root` is the answer; none or
/// several is an `SgIo` error naming the block device.
pub open spec fn sg_pick_ok(
    canonical: Seq<char>,
    dev_root: Seq<char>,
    names: Seq<Seq<char>>,
    r: Result<String, TransportError>,
) -> bool {
    let found = sg_paths_in(dev_root, names).to_set();
    &&& found.len() == 1 ==> (r matches Ok(p) && found == set![p@])
    &&& found.len() == 0 ==> (r matches Err(TransportError::SgIo(m)) && m@
        == "no scsi_generic device found for "@ + canonical)
    &&& found.len() > 1 ==> (r matches Err(TransportError::SgIo(m)) && m@
        == "multiple scsi_generic devices found for "@ + canonical + " ("@ + decimal_chars(
        found.len(),
    ) + ")"@)
}

/// Pushing onto a sequence inserts into its set.
proof fn lemma_push_to_set(s: Seq<Seq<char>>, x: Seq<char>)
    ensures
        s.push(x).to_set() == s.to_set().insert(x),
{
    assert(s.push(x) =~= s + seq![x]);
    Seq::lemma_to_set_insert_commutes(s, x);
}

/// Picks the SCSI generic node of a block device from the entries of its
/// `device/scsi_generic` directory.
pub fn pick_scsi_generic(canonical: &str, dev_root: &str, names: &[String]) -> (r: Result<
    String,
    TransportError,
>)
    ensures
        sg_pick_ok(canonical@, dev_root@, string_views(names@), r),
{
    let mut distinct: Vec<String> = Vec::new();
    let mut i: usize = 0;
    while i < names.len()
        invariant
            i <= names@.len(),
            string_views(distinct@).no_duplicates(),
            string_views(distinct@).to_set() == sg_paths_in(
                dev_root@,
                string_views(names@.subrange(0, i as int)),
            ).to_set(),
        decreases names.len() - i,
    {
        let ghost before = string_views(distinct@);
        let ghost prefix = string_views(names@.subrange(0, i as int));
        let ghost grown = string_views(names@.subrange(0, i + 1));
        assert(grown =~= prefix.push(names@[i as int]@));
        assert(grown.drop_last() =~= prefix);
        assert(grown.last() == names@[i as int]@);
        if str_starts_with(names[i].as_str(), "sg") {
            let p = path_join(dev_root, names[i].as_str());
            let mut seen = false;
            let mut j: usize = 0;
            while j < distinct.len()
                invariant
                    j <= distinct@.len(),
                    seen <==> exists|k: int| 0 <= k < j && (#[trigger] distinct@[k])@ == p@,
                decreases distinct.len() - j,
            {
                if distinct[j] == p {
                    seen = true;
                }
                j = j + 1;
            }
            proof {
                lemma_push_to_set(before, p@);
                lemma_push_to_set(sg_paths_in(dev_root@, prefix), p@);
                assert(sg_paths_in(dev_root@, grown) == sg_paths_in(dev_root@, prefix).push(p@));
                if seen {
                    let k = choose|k: int| 0 <= k < distinct@.len() && (#[trigger] distinct@[k])@
                        == p@;
                    assert(before[k] == p@);
                    assert(before.to_set().insert(p@) =~= before.to_set());
                }
            }
            if !seen {
                distinct.push(p);
                proof {
                    assert(string_views(distinct@) =~= before.push(p@));
                    lemma_push_to_set(before, p@);
                }
            }
        } else {
            assert(sg_paths_in(dev_root@, grown) == sg_paths_in(dev_root@, prefix));
        }
        i = i + 1;
    }
    assert(names@.subrange(0, names@.len() as int) =~= names@);
    proof {
        string_views(distinct@).unique_seq_to_set();
    }
    let n = distinct.len();
    if n == 1 {
        let ghost sv = string_views(distinct@);
        assert(sv[0] == distinct@[0]@);
        assert(sv.to_set() =~= set![distinct@[0]@]) by {
            assert forall|a: Seq<char>| sv.contains(a) <==> a == distinct@[0]@ by {
                if a == distinct@[0]@ {
                    assert(sv[0] == a);
                }
            }
        }
        return Ok(distinct[0].clone());
    }
    if n == 0 {
        let mut msg = "no scsi_generic device found for ".to_owned();
        msg.append(canonical);
        return Err(TransportError::SgIo(msg));
    }
    let mut msg = "multiple scsi_generic devices found for ".to_owned();
    msg.append(canonical);
    msg.append(" (");
    push_decimal(&mut msg, n as u64);
    msg.append(")");
    Err(TransportError::SgIo(msg))
}

/// Lexicographic order on text by code point: a prefix comes first, otherwise the
/// first differing character decides. It is the order of the UTF-8 bytes, and so
/// the order of paths that differ only in their last component.
pub open spec fn lex_le(a: Seq<char>, b: Seq<char>) -> bool
    decreases a.len(),
{
    if a.len() == 0 {
        true
    } else if b.len() == 0 {
        false
    } else if a[0] != b[0] {
        a[0] < b[0]
    } else {
        lex_le(a.drop_first(), b.drop_first())
    }
}

/// Any two texts are ordered one way or the other.
proof fn lemma_lex_total(a: Seq<char>, b: Seq<char>)
    ensures
        lex_le(a, b) || lex_le(b, a),
    decreases a.len(),
{
    if a.len() > 0 && b.len() > 0 {
        if a[0] == b[0] {
            lemma_lex_total(a.drop_first(), b.drop_first());
        }
    }
}

/// The order is transitive.
proof fn lemma_lex_trans(a: Seq<char>, b: Seq<char>, c: Seq<char>)
    requires
        lex_le(a, b),
        lex_le(b, c),
    ensures
        lex_le(a, c),
    decreases a.len(),
{
    if a.len() > 0 && b.len() > 0 && c.len() > 0 && a[0] == b[0] && b[0] == c[0] {
        lemma_lex_trans(a.drop_first(), b.drop_first(), c.drop_first());
    }
}

/// Texts that agree on their first `i` characters compare as their rests do.
proof fn lemma_lex_skip(a: Seq<char>, b: Seq<char>, i: int)
    requires
        0 <= i <= a.len(),
        i <= b.len(),
        a.subrange(0, i) == b.subrange(0, i),
    ensures
        lex_le(a, b) == lex_le(a.subrange(i, a.len() as int), b.subrange(i, b.len() as int)),
    decreases i,
{
    if i == 0 {
        assert(a.subrange(0, a.len() as int) =~= a);
        assert(b.subrange(0, b.len() as int) =~= b);
    } else {
        assert(a[0] == a.subrange(0, i)[0]);
        assert(b[0] == b.subrange(0, i)[0]);
        assert(a.drop_first().subrange(0, i - 1) =~= a.subrange(0, i).drop_first());
        assert(b.drop_first().subrange(0, i - 1) =~= b.subrange(0, i).drop_first());
        lemma_lex_skip(a.drop_first(), b.drop_first(), i - 1);
        assert(a.drop_first().subrange(i - 1, a.len() - 1) =~= a.subrange(i, a.len() as int));
        assert(b.drop_first().subrange(i - 1, b.len() - 1) =~= b.subrange(i, b.len() as int));
    }
}

/// Whether `a` comes no later than `b` in lexicographic order.
pub fn str_lex_le(a: &str, b: &str) -> (r: bool)
    ensures
        r == lex_le(a@, b@),
{
    let x = chars_of(a);
    let y = chars_of(b);
    let mut i: usize = 0;
    while i < x.len() && i < y.len() && x[i] == y[i]
        invariant
            x@ == a@,
            y@ == b@,
            i <= x@.len(),
            i <= y@.len(),
            x@.subrange(0, i as int) == y@.subrange(0, i as int),
        decreases x.len() - i,
    {
        assert(x@.subrange(0, i + 1) =~= x@.subrange(0, i as int).push(x@[i as int]));
        assert(y@.subrange(0, i + 1) =~= y@.subrange(0, i as int).push(y@[i as int]));
        i = i + 1;
    }
    proof {
        lemma_lex_skip(x@, y@, i as int);
        let xs = x@.subrange(i as int, x@.len() as int);
        let ys = y@.subrange(i as int, y@.len() as int);
        if i < x@.len() && i < y@.len() {
            assert(xs[0] == x@[i as int]);
            assert(ys[0] == y@[i as int]);
        }
    }
    if i == x.len() {
        true
    } else if i == y.len() {
        false
    } else {
        x[i] < y[i]
    }
}

/// Inserting into a sequence adds the element to its multiset.
proof fn lemma_insert_multiset(s: Seq<Seq<char>>, i: int, x: Seq<char>)
    requires
        0 <= i <= s.len(),
    ensures
        s.insert(i, x).to_multiset() == s.to_multiset().insert(x),
{
    let t = s.insert(i, x);
    s.insert_ensures(i, x);
    assert(t.remove(i) =~= s);
    t.to_multiset_ensures();
    assert(t.contains(x)) by {
        assert(t[i] == x);
    }
    assert(t.to_multiset() =~= s.to_multiset().insert(x));
}

/// The SCSI generic nodes among the entries of `dev_root`, as paths under it, in
/// lexicographic order.
pub fn sg_node_paths(dev_root: &str, names: &[String]) -> (r: Vec<String>)
    ensures
        string_views(r@).to_multiset() == sg_paths_in(dev_root@, string_views(names@)).to_multiset(),
        forall|a: int, b: int| 0 <= a < b < r@.len() ==> lex_le(r@[a]@, r@[b]@),
{
    let mut sorted: Vec<String> = Vec::new();
    let mut i: usize = 0;
    assert(string_views(sorted@) =~= Seq::<Seq<char>>::empty());
    assert(sg_paths_in(dev_root@, string_views(names@.subrange(0, 0))) =~= Seq::<
        Seq<char>,
    >::empty());
    while i < names.len()
        invariant
            i <= names@.len(),
            string_views(sorted@).to_multiset() == sg_paths_in(
                dev_root@,
                string_views(names@.subrange(0, i as int)),
            ).to_multiset(),
            forall|a: int, b: int| 0 <= a < b < sorted@.len() ==> lex_le(sorted@[a]@, sorted@[b]@),
        decreases names.len() - i,
    {
        let ghost prefix = string_views(names@.subrange(0, i as int));
        let ghost grown = string_views(names@.subrange(0, i + 1));
        assert(grown =~= prefix.push(names@[i as int]@));
        assert(grown.drop_last() =~= prefix);
        assert(grown.last() == names@[i as int]@);
        if str_starts_with(names[i].as_str(), "sg") {
            let p = path_join(dev_root, names[i].as_str());
            let mut pos: usize = 0;
            while pos < sorted.len()
                invariant
                    pos <= sorted@.len(),
                    forall|k: int| 0 <= k < pos ==> lex_le(sorted@[k]@, p@),
                ensures
                    pos <= sorted@.len(),
                    forall|k: int| 0 <= k < pos ==> lex_le(sorted@[k]@, p@),
                    pos < sorted@.len() ==> !lex_le(sorted@[pos as int]@, p@),
                decreases sorted.len() - pos,
            {
                if !str_lex_le(sorted[pos].as_str(), p.as_str()) {
                    break;
                }
                pos = pos + 1;
            }
            let ghost old_sorted = sorted@;
            let ghost pv = p@;
            sorted.insert(pos, p);
            proof {
                let ov = string_views(old_sorted);
                assert(string_views(sorted@) =~= ov.insert(pos as int, pv));
                lemma_insert_multiset(ov, pos as int, pv);
                sg_paths_in(dev_root@, prefix).to_multiset_ensures();
                assert(sg_paths_in(dev_root@, grown) == sg_paths_in(dev_root@, prefix).push(pv));
                assert forall|a: int, b: int| 0 <= a < b < sorted@.len() implies lex_le(
                    sorted@[a]@,
                    sorted@[b]@,
                ) by {
                    if b < pos {
                        assert(sorted@[a] == old_sorted[a] && sorted@[b] == old_sorted[b]);
                    } else if b == pos {
                        assert(sorted@[a] == old_sorted[a]);
                    } else if a < pos {
                        assert(sorted@[a] == old_sorted[a] && sorted@[b] == old_sorted[b - 1]);
                    } else if a == pos {
                        assert(sorted@[b] == old_sorted[b - 1]);
                        lemma_lex_total(old_sorted[pos as int]@, pv);
                        if b - 1 > pos {
                            lemma_lex_trans(pv, old_sorted[pos as int]@, old_sorted[b - 1]@);
                        }
                    } else {
                        assert(sorted@[a] == old_sorted[a - 1] && sorted@[b] == old_sorted[b - 1]);
                    }
                }
            }
        } else {
            assert(sg_paths_in(dev_root@, grown) == sg_paths_in(dev_root@, prefix));
        }
        i = i + 1;
    }
    assert(names@.subrange(0, names@.len() as int) =~= names@);
    sorted
}

/// Where resolving a device selector to a SCSI generic node stands, and what it
/// needs to learn next.
pub enum SgResolve {
    /// Needs to know whether the selector names an existing file.
    CheckSelector,
    /// Needs the canonical path of the selector and the last component of that path.
    Canonicalize,
    /// Needs to know whether the block class lists a device called `name`.
    CheckBlockClass { canonical: String, name: String },
    /// Needs to know whether that block device has a `device/scsi_generic` directory.
    CheckGenericDir { canonical: String, name: String },
    /// Needs the entry names of that `device/scsi_generic` directory.
    ListGenericDir { canonical: String, name: String },
    /// The resolution is over, with this outcome.
    Done(Result<String, TransportError>),
}

/// What was learnt for the question a resolution state asked.
pub enum SgFact {
    /// Whether the file asked about exists.
    Exists(bool),
    /// The canonical path (the selector itself where it has none) and its last
    /// component, when that is valid text.
    Canonical { path: String, name: Option<String> },
    /// The entry names of a directory.
    Entries(Vec<String>),
}

/// Whether `fact` answers the question `state` asks.
pub open spec fn sg_fact_answers(state: SgResolve, fact: SgFact) -> bool {
    match state {
        SgResolve::CheckSelector => fact is Exists,
        SgResolve::Canonicalize => fact is Canonical,
        SgResolve::CheckBlockClass { .. } => fact is Exists,
        SgResolve::CheckGenericDir { .. } => fact is Exists,
        SgResolve::ListGenericDir { .. } => fact is Entries,
        SgResolve::Done(_) => false,
    }
}

/// One step of the resolution of `selector`:
/// - a selector that does not exist, or whose canonical path has no textual last
///   component, is `DeviceNotFound` with the selector;
/// - a canonical path whose last component starts with `sg` is the answer;
/// - a device the block class does not list is taken as it is (its canonical path);
/// - a listed block device without a `device/scsi_generic` directory is an `SgIo` error;
/// - otherwise the entries of that directory decide, as `sg_pick_ok` says.
pub open spec fn sg_step_ok(
    selector: Seq<char>,
    dev_root: Seq<char>,
    state: SgResolve,
    fact: SgFact,
    r: SgResolve,
) -> bool {
    match state {
        SgResolve::CheckSelector => match fact {
            SgFact::Exists(true) => r is Canonicalize,
            _ => r matches SgResolve::Done(Err(TransportError::DeviceNotFound(p))) && p@ == selector,
        },
        SgResolve::Canonicalize => match fact {
            SgFact::Canonical { path, name: Some(n) } => if is_sg_name(n@) {
                r matches SgResolve::Done(Ok(p)) && p@ == path@
            } else {
                r matches SgResolve::CheckBlockClass { canonical, name } && canonical@ == path@
                    && name@ == n@
            },
            _ => r matches SgResolve::Done(Err(TransportError::DeviceNotFound(p))) && p@ == selector,
        },
        SgResolve::CheckBlockClass { canonical, name } => match fact {
            SgFact::Exists(true) => r matches SgResolve::CheckGenericDir { canonical: c, name: n }
                && c@ == canonical@ && n@ == name@,
            _ => r matches SgResolve::Done(Ok(p)) && p@ == canonical@,
        },
        SgResolve::CheckGenericDir { canonical, name } => match fact {
            SgFact::Exists(true) => r matches SgResolve::ListGenericDir { canonical: c, name: n }
                && c@ == canonical@ && n@ == name@,
            _ => r matches SgResolve::Done(Err(TransportError::SgIo(m))) && m@
                == "no scsi_generic mapping found for "@ + canonical@,
        },
        SgResolve::ListGenericDir { canonical, name } => match fact {
            SgFact::Entries(names) => r matches SgResolve::Done(res) && sg_pick_ok(
                canonical@,
                dev_root,
                string_views(names@),
                res,
            ),
            _ => false,
        },
        SgResolve::Done(_) => false,
    }
}

/// Advances the resolution of `selector` by what was learnt for its last question.
pub fn sg_resolve_step(selector: &str, dev_root: &str, state: SgResolve, fact: SgFact) -> (r:
    SgResolve)
    requires
        sg_fact_answers(state, fact),
    ensures
        sg_step_ok(selector@, dev_root@, state, fact, r),
{
    match state {
        SgResolve::CheckSelector => match fact {
            SgFact::Exists(true) => SgResolve::Canonicalize,
            _ => SgResolve::Done(Err(TransportError::DeviceNotFound(selector.to_owned()))),
        },
        SgResolve::Canonicalize => match fact {
            SgFact::Canonical { path, name: Some(n) } => {
                if str_starts_with(n.as_str(), "sg") {
                    SgResolve::Done(Ok(path))
                } else {
                    SgResolve::CheckBlockClass { canonical: path, name: n }
                }
            },
            _ => SgResolve::Done(Err(TransportError::DeviceNotFound(selector.to_owned()))),
        },
        SgResolve::CheckBlockClass { canonical, name } => match fact {
            SgFact::Exists(true) => SgResolve::CheckGenericDir { canonical, name },
            _ => SgResolve::Done(Ok(canonical)),
        },
        SgResolve::CheckGenericDir { canonical, name } => match fact {
            SgFact::Exists(true) => SgResolve::ListGenericDir { canonical, name },
            _ => {
                let mut msg = "no scsi_generic mapping found for ".to_owned();
                msg.append(canonical.as_str());
                SgResolve::Done(Err(TransportError::SgIo(msg)))
            },
        },
        SgResolve::ListGenericDir { canonical, name } => match fact {
            SgFact::Entries(names) => SgResolve::Done(
                pick_scsi_generic(canonical.as_str(), dev_root, names.as_slice()),
            ),
            _ => SgResolve::Done(Err(TransportError::Unsupported)),
        },
        SgResolve::Done(r) => SgResolve::Done(r),
    }
}

/// A selector that already names a SCSI generic node (its canonical path ends in
/// a component starting with `sg`) resolves to that path in two steps, without
/// looking at the block class.
pub proof fn lemma_sg_selector_resolves_to_itself(
    selector: Seq<char>,
    dev_root: Seq<char>,
    path: String,
    name: String,
    s1: SgResolve,
    s2: SgResolve,
)
    requires
        is_sg_name(name@),
        sg_step_ok(selector, dev_root, SgResolve::CheckSelector, SgFact::Exists(true), s1),
        sg_step_ok(selector, dev_root, s1, SgFact::Canonical { path, name: Some(name) }, s2),
    ensures
        s2 matches SgResolve::Done(Ok(p)) && p@ == path@,
{
}

/// A selector that does not exist is reported as not found, with the selector.
pub proof fn lemma_missing_selector_not_found(selector: Seq<char>, dev_root: Seq<char>, s1: SgResolve)
    requires
        sg_step_ok(selector, dev_root, SgResolve::CheckSelector, SgFact::Exists(false), s1),
    ensures
        s1 matches SgResolve::Done(Err(TransportError::DeviceNotFound(p))) && p@ == selector,
{
}

} // verus!
