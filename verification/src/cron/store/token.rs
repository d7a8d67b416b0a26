//! The token by which an operator says which state was looked at: the digest of a
//! snapshot in its serialized form.

use crate::cron::store::snapshot::{Snapshot, SnapshotView};
use crate::digest;
use crate::json;
use crate::turn::tool;
use vstd::prelude::*;
use vstd::string::*;
use vstd::utf8::*;

verus! {

/// The end of a snapshot in JSON: what surrounds the run and the occurrence.
pub open spec fn surroundings_json(s: SnapshotView) -> Seq<char> {
    "],\"locked\":"@ + (tool::bool_json(s.locked) + (",\"latest\":"@ + (tool::bool_json(s.latest) + (
    ",\"other_uncertain\":"@ + (tool::bool_json(s.other_uncertain) + "}"@)))))
}

/// A snapshot in JSON from the items of its occurrence on: the two states, the
/// output and the time of the last change.
pub open spec fn from_occurrence_json(s: SnapshotView) -> Seq<char> {
    json::string_json(s.occurrence.execution_state) + (","@ + (json::string_json(
        s.occurrence.delivery_state,
    ) + (","@ + (tool::opt_json(s.occurrence.output) + (","@ + (json::string_json(
        s.occurrence.updated_at,
    ) + surroundings_json(s)))))))
}

/// A snapshot in JSON from the items of its run on: its two times, its status and
/// its output.
pub open spec fn from_run_json(s: SnapshotView) -> Seq<char> {
    json::string_json(s.run.started_at) + (","@ + (json::string_json(s.run.finished_at) + (","@ + (
    json::string_json(s.run.status) + (","@ + (tool::opt_json(s.run.output) + (
    "],\"occurrence\":["@ + from_occurrence_json(s))))))))
}

/// A snapshot in JSON. `job` is the job in its own serialized form; run and
/// occurrence are written without their identifiers.
pub open spec fn snapshot_json(s: SnapshotView, job: Seq<char>) -> Seq<char> {
    "{\"job\":"@ + (job + (",\"run\":["@ + from_run_json(s)))
}

/// The token of a snapshot whose job has the serialized form `job`: the SHA-256
/// digest of the snapshot in JSON, in hexadecimal.
pub open spec fn token_of(s: SnapshotView, job: Seq<char>) -> Seq<char> {
    digest::hex(digest::sha256_of(encode_utf8(snapshot_json(s, job))))
}

/// Appends a string as JSON.
fn push_string(out: &mut String, s: &str)
    ensures
        final(out)@ == old(out)@ + json::string_json(s@),
{
    let t: String = json::string_text(s);
    out.append(t.as_str());
}

/// Texts can be put together from either end.
proof fn lemma_regroup(a: Seq<char>, b: Seq<char>, c: Seq<char>)
    ensures
        (a + b) + c == a + (b + c),
{
    assert((a + b) + c =~= a + (b + c));
}

/// Appends what surrounds the run and the occurrence of a snapshot.
fn push_surroundings(out: &mut String, s: &Snapshot)
    ensures
        final(out)@ == old(out)@ + surroundings_json(s@),
{
    let ghost p0 = out@;
    out.append("],\"locked\":");
    let ghost p1 = out@;
    tool::push_bool(out, s.locked);
    let ghost p2 = out@;
    out.append(",\"latest\":");
    let ghost p3 = out@;
    tool::push_bool(out, s.latest);
    let ghost p4 = out@;
    out.append(",\"other_uncertain\":");
    let ghost p5 = out@;
    tool::push_bool(out, s.other_uncertain);
    out.append("}");
    proof {
        let t6 = "}"@;
        let t5 = tool::bool_json(s@.other_uncertain) + t6;
        lemma_regroup(p5, tool::bool_json(s@.other_uncertain), t6);
        let t4 = ",\"other_uncertain\":"@ + t5;
        lemma_regroup(p4, ",\"other_uncertain\":"@, t5);
        let t3 = tool::bool_json(s@.latest) + t4;
        lemma_regroup(p3, tool::bool_json(s@.latest), t4);
        let t2 = ",\"latest\":"@ + t3;
        lemma_regroup(p2, ",\"latest\":"@, t3);
        let t1 = tool::bool_json(s@.locked) + t2;
        lemma_regroup(p1, tool::bool_json(s@.locked), t2);
        lemma_regroup(p0, "],\"locked\":"@, t1);
    }
}

/// Appends a snapshot from the items of its occurrence on.
fn push_from_occurrence(out: &mut String, s: &Snapshot)
    ensures
        final(out)@ == old(out)@ + from_occurrence_json(s@),
{
    let ghost p0 = out@;
    push_string(out, s.occurrence.execution_state.as_str());
    let ghost p1 = out@;
    out.append(",");
    let ghost p2 = out@;
    push_string(out, s.occurrence.delivery_state.as_str());
    let ghost p3 = out@;
    out.append(",");
    let ghost p4 = out@;
    tool::push_opt(out, &s.occurrence.output);
    let ghost p5 = out@;
    out.append(",");
    let ghost p6 = out@;
    push_string(out, s.occurrence.updated_at.as_str());
    push_surroundings(out, s);
    proof {
        let t7 = surroundings_json(s@);
        let t6 = json::string_json(s@.occurrence.updated_at) + t7;
        lemma_regroup(p6, json::string_json(s@.occurrence.updated_at), t7);
        let t5 = ","@ + t6;
        lemma_regroup(p5, ","@, t6);
        let t4 = tool::opt_json(s@.occurrence.output) + t5;
        lemma_regroup(p4, tool::opt_json(s@.occurrence.output), t5);
        let t3 = ","@ + t4;
        lemma_regroup(p3, ","@, t4);
        let t2 = json::string_json(s@.occurrence.delivery_state) + t3;
        lemma_regroup(p2, json::string_json(s@.occurrence.delivery_state), t3);
        let t1 = ","@ + t2;
        lemma_regroup(p1, ","@, t2);
        lemma_regroup(p0, json::string_json(s@.occurrence.execution_state), t1);
    }
}

/// Appends a snapshot from the items of its run on.
fn push_from_run(out: &mut String, s: &Snapshot)
    ensures
        final(out)@ == old(out)@ + from_run_json(s@),
{
    let ghost p0 = out@;
    push_string(out, s.run.started_at.as_str());
    let ghost p1 = out@;
    out.append(",");
    let ghost p2 = out@;
    push_string(out, s.run.finished_at.as_str());
    let ghost p3 = out@;
    out.append(",");
    let ghost p4 = out@;
    push_string(out, s.run.status.as_str());
    let ghost p5 = out@;
    out.append(",");
    let ghost p6 = out@;
    tool::push_opt(out, &s.run.output);
    let ghost p7 = out@;
    out.append("],\"occurrence\":[");
    push_from_occurrence(out, s);
    proof {
        let t8 = from_occurrence_json(s@);
        let t7 = "],\"occurrence\":["@ + t8;
        lemma_regroup(p7, "],\"occurrence\":["@, t8);
        let t6 = tool::opt_json(s@.run.output) + t7;
        lemma_regroup(p6, tool::opt_json(s@.run.output), t7);
        let t5 = ","@ + t6;
        lemma_regroup(p5, ","@, t6);
        let t4 = json::string_json(s@.run.status) + t5;
        lemma_regroup(p4, json::string_json(s@.run.status), t5);
        let t3 = ","@ + t4;
        lemma_regroup(p3, ","@, t4);
        let t2 = json::string_json(s@.run.finished_at) + t3;
        lemma_regroup(p2, json::string_json(s@.run.finished_at), t3);
        let t1 = ","@ + t2;
        lemma_regroup(p1, ","@, t2);
        lemma_regroup(p0, json::string_json(s@.run.started_at), t1);
    }
}

/// A snapshot in JSON, for the serialized form of its job.
fn snapshot_text(s: &Snapshot, job: &str) -> (out: String)
    ensures
        out@ == snapshot_json(s@, job@),
{
    let mut out: String = "{\"job\":".to_owned();
    out.append(job);
    out.append(",\"run\":[");
    push_from_run(&mut out, s);
    assert(out@ =~= snapshot_json(s@, job@));
    out
}

impl<'a> Snapshot<'a> {
    /// The token of the snapshot, for the serialized form of its job.
    pub fn token(&self, job: &str) -> (r: String)
        ensures
            r@ == token_of(self@, job@),
            digest::is_hex_digest(r@),
    {
        let written: String = snapshot_text(self, job);
        let sum: Vec<u8> = digest::sha256(written.as_str().as_bytes());
        proof {
            digest::lemma_hex_digest(sum@);
        }
        digest::hex_text(sum.as_slice())
    }
}

/// Whether a text nowhere holds the end of a key that ends in `n` and has a list
/// under it.
spec fn unkeyed(s: Seq<char>) -> bool {
    forall|q: int|
        0 <= q && q + 3 < s.len() ==> !(#[trigger] s[q] == 'n' && s[q + 1] == '"' && s[q + 2] == ':'
            && s[q + 3] == '[')
}

/// Two texts are put together without such a key, unless the first one ends
/// within it.
proof fn lemma_unkeyed_join(a: Seq<char>, b: Seq<char>)
    requires
        unkeyed(a),
        unkeyed(b),
        a.len() > 0,
        a.last() != 'n',
        a.last() != '"',
        a.last() != ':',
    ensures
        unkeyed(a + b),
{
    let s = a + b;
    assert forall|q: int| 0 <= q && q + 3 < s.len() implies !(#[trigger] s[q] == 'n' && s[q + 1]
        == '"' && s[q + 2] == ':' && s[q + 3] == '[') by {
        if q + 3 < a.len() {
            assert(s[q] == a[q] && s[q + 1] == a[q + 1] && s[q + 2] == a[q + 2] && s[q + 3] == a[q
                + 3]);
        } else if q >= a.len() {
            let p = q - a.len();
            assert(s[q] == b[p] && s[q + 1] == b[p + 1] && s[q + 2] == b[p + 2] && s[q + 3] == b[p
                + 3]);
        } else {
            assert(s[a.len() - 1] == a.last());
        }
    }
}

/// A written string is followed by a comma or a bracket, so no such key ends there.
proof fn lemma_unkeyed_string(t: Seq<char>, rest: Seq<char>)
    requires
        unkeyed(rest),
        rest.len() > 0,
        rest[0] != ':',
    ensures
        unkeyed(json::string_json(t) + rest),
{
    let a = json::string_json(t);
    let e = json::escaped(t);
    let s = a + rest;
    json::lemma_quotes_are_escaped(t);
    assert forall|q: int| 0 <= q && q + 3 < s.len() implies !(#[trigger] s[q] == 'n' && s[q + 1]
        == '"' && s[q + 2] == ':' && s[q + 3] == '[') by {
        if q >= a.len() {
            let p = q - a.len();
            assert(s[q] == rest[p] && s[q + 1] == rest[p + 1] && s[q + 2] == rest[p + 2] && s[q + 3]
                == rest[p + 3]);
        } else if q == a.len() - 1 {
            assert(s[q] == '"');
        } else if q + 1 == a.len() - 1 {
            assert(s[q + 2] == rest[0]);
        } else if q == 0 {
            assert(s[q] == '"');
        } else {
            assert(s[q + 1] == e[q]);
            assert(s[q] == e[q - 1]);
        }
    }
}

/// So is an optional string.
proof fn lemma_unkeyed_opt(t: Option<Seq<char>>, rest: Seq<char>)
    requires
        unkeyed(rest),
        rest.len() > 0,
        rest[0] != ':',
    ensures
        unkeyed(tool::opt_json(t) + rest),
{
    match t {
        Some(t) => {
            lemma_unkeyed_string(t, rest);
        },
        None => {
            reveal_strlit("null");
            lemma_unkeyed_join("null"@, rest);
        },
    }
}

/// And a truth value.
proof fn lemma_unkeyed_bool(b: bool, rest: Seq<char>)
    requires
        unkeyed(rest),
    ensures
        unkeyed(tool::bool_json(b) + rest),
        (tool::bool_json(b) + rest)[0] == 't' || (tool::bool_json(b) + rest)[0] == 'f',
{
    reveal_strlit("true");
    reveal_strlit("false");
    lemma_unkeyed_join(tool::bool_json(b), rest);
}

/// And a comma.
proof fn lemma_unkeyed_comma(rest: Seq<char>)
    requires
        unkeyed(rest),
    ensures
        unkeyed(","@ + rest),
        (","@ + rest).len() > 0,
        (","@ + rest)[0] == ',',
{
    reveal_strlit(",");
    lemma_unkeyed_join(","@, rest);
}

/// The rest of a snapshot behind its job holds the key of the run nowhere but at
/// its beginning.
proof fn lemma_unkeyed_rest(s: SnapshotView)
    ensures
        unkeyed(from_run_json(s)),
{
    reveal_strlit("}");
    reveal_strlit("],\"locked\":");
    reveal_strlit(",\"latest\":");
    reveal_strlit(",\"other_uncertain\":");
    reveal_strlit("],\"occurrence\":[");
    let end = "}"@;
    let a1 = tool::bool_json(s.other_uncertain) + end;
    lemma_unkeyed_bool(s.other_uncertain, end);
    let a2 = ",\"other_uncertain\":"@ + a1;
    lemma_unkeyed_label(",\"other_uncertain\":"@, a1);
    let a3 = tool::bool_json(s.latest) + a2;
    lemma_unkeyed_bool(s.latest, a2);
    let a4 = ",\"latest\":"@ + a3;
    lemma_unkeyed_label(",\"latest\":"@, a3);
    let a5 = tool::bool_json(s.locked) + a4;
    lemma_unkeyed_bool(s.locked, a4);
    let a6 = "],\"locked\":"@ + a5;
    lemma_unkeyed_label("],\"locked\":"@, a5);
    assert(a6 == surroundings_json(s));
    assert(a6[0] == ']');
    let o = s.occurrence;
    let b1 = json::string_json(o.updated_at) + a6;
    lemma_unkeyed_string(o.updated_at, a6);
    lemma_unkeyed_comma(b1);
    let b2 = tool::opt_json(o.output) + (","@ + b1);
    lemma_unkeyed_opt(o.output, ","@ + b1);
    lemma_unkeyed_comma(b2);
    let b3 = json::string_json(o.delivery_state) + (","@ + b2);
    lemma_unkeyed_string(o.delivery_state, ","@ + b2);
    lemma_unkeyed_comma(b3);
    let b4 = json::string_json(o.execution_state) + (","@ + b3);
    lemma_unkeyed_string(o.execution_state, ","@ + b3);
    assert(b4 == from_occurrence_json(s));
    let c0 = "],\"occurrence\":["@ + b4;
    lemma_unkeyed_join("],\"occurrence\":["@, b4);
    assert(c0[0] == ']');
    let r = s.run;
    let c1 = tool::opt_json(r.output) + c0;
    lemma_unkeyed_opt(r.output, c0);
    lemma_unkeyed_comma(c1);
    let c2 = json::string_json(r.status) + (","@ + c1);
    lemma_unkeyed_string(r.status, ","@ + c1);
    lemma_unkeyed_comma(c2);
    let c3 = json::string_json(r.finished_at) + (","@ + c2);
    lemma_unkeyed_string(r.finished_at, ","@ + c2);
    lemma_unkeyed_comma(c3);
    lemma_unkeyed_string(r.started_at, ","@ + c3);
    assert(from_run_json(s) == json::string_json(r.started_at) + (","@ + c3));
}

/// A key with a truth value under it is none with a list.
proof fn lemma_unkeyed_label(label: Seq<char>, rest: Seq<char>)
    requires
        unkeyed(label),
        unkeyed(rest),
        label.len() > 0,
        label.last() == ':',
        rest.len() > 0,
        rest[0] == 't' || rest[0] == 'f',
    ensures
        unkeyed(label + rest),
{
    let s = label + rest;
    assert forall|q: int| 0 <= q && q + 3 < s.len() implies !(#[trigger] s[q] == 'n' && s[q + 1]
        == '"' && s[q + 2] == ':' && s[q + 3] == '[') by {
        let n = label.len() as int;
        if q + 3 < n {
            assert(s[q] == label[q] && s[q + 1] == label[q + 1] && s[q + 2] == label[q + 2] && s[q
                + 3] == label[q + 3]);
        } else if q >= n {
            let p = q - n;
            assert(s[q] == rest[p] && s[q + 1] == rest[p + 1] && s[q + 2] == rest[p + 2] && s[q + 3]
                == rest[p + 3]);
        } else {
            assert(s[n - 1] == ':');
            assert(s[n] == rest[0]);
        }
    }
}

/// Where the job ends in a snapshot is told by the text itself.
proof fn lemma_job_end(a: SnapshotView, job_a: Seq<char>, b: SnapshotView, job_b: Seq<char>)
    requires
        job_a + (",\"run\":["@ + from_run_json(a)) == job_b + (",\"run\":["@ + from_run_json(b)),
    ensures
        job_a.len() >= job_b.len(),
{
    reveal_strlit(",\"run\":[");
    let head = ",\"run\":["@;
    assert(head.len() == 8);
    let x = job_a + (head + from_run_json(a));
    let y = job_b + (head + from_run_json(b));
    if job_a.len() < job_b.len() {
        let n = job_a.len() as int;
        let m = job_b.len() as int;
        let p = m - n;
        assert(y[m] == head[0] && y[m + 4] == head[4] && y[m + 5] == head[5] && y[m + 6] == head[6]
            && y[m + 7] == head[7]);
        if p < 8 {
            assert(x[m] == head[p]);
        } else {
            let rest = from_run_json(a);
            lemma_unkeyed_rest(a);
            let q = p - 4;
            let tail = head + rest;
            assert(x.len() == y.len());
            assert(x[m + 4] == tail[p + 4] && x[m + 5] == tail[p + 5] && x[m + 6] == tail[p + 6]
                && x[m + 7] == tail[p + 7]);
            assert(tail[p + 4] == rest[q] && tail[p + 5] == rest[q + 1] && tail[p + 6] == rest[q
                + 2] && tail[p + 7] == rest[q + 3]);
        }
    }
}

/// The same beginning is followed by the same rest.
proof fn lemma_same_rest(head: Seq<char>, x: Seq<char>, y: Seq<char>)
    requires
        head + x == head + y,
    ensures
        x == y,
{
    assert((head + x).skip(head.len() as int) =~= x);
    assert((head + y).skip(head.len() as int) =~= y);
}

/// An optional string and where it ends are told by the text.
proof fn lemma_opt_end(s: Option<Seq<char>>, x: Seq<char>, t: Option<Seq<char>>, y: Seq<char>)
    requires
        tool::opt_json(s) + x == tool::opt_json(t) + y,
    ensures
        s == t,
        x == y,
{
    reveal_strlit("null");
    let a = tool::opt_json(s) + x;
    let b = tool::opt_json(t) + y;
    assert(a[0] == tool::opt_json(s)[0]);
    assert(b[0] == tool::opt_json(t)[0]);
    match (s, t) {
        (Some(s), Some(t)) => {
            json::lemma_string_end(s, x, t, y);
        },
        (None, None) => {
            lemma_same_rest("null"@, x, y);
        },
        _ => {},
    }
}

/// A truth value and where it ends are told by the text.
proof fn lemma_bool_end(s: bool, x: Seq<char>, t: bool, y: Seq<char>)
    requires
        tool::bool_json(s) + x == tool::bool_json(t) + y,
    ensures
        s == t,
        x == y,
{
    reveal_strlit("true");
    reveal_strlit("false");
    let a = tool::bool_json(s) + x;
    let b = tool::bool_json(t) + y;
    assert(a[0] == tool::bool_json(s)[0]);
    assert(b[0] == tool::bool_json(t)[0]);
    lemma_same_rest(tool::bool_json(s), x, y);
}

/// What surrounds the run and the occurrence is told by the text.
proof fn lemma_surroundings(a: SnapshotView, b: SnapshotView)
    requires
        surroundings_json(a) == surroundings_json(b),
    ensures
        a.locked == b.locked,
        a.latest == b.latest,
        a.other_uncertain == b.other_uncertain,
{
    let x2 = tool::bool_json(a.other_uncertain) + "}"@;
    let y2 = tool::bool_json(b.other_uncertain) + "}"@;
    let x1 = tool::bool_json(a.latest) + (",\"other_uncertain\":"@ + x2);
    let y1 = tool::bool_json(b.latest) + (",\"other_uncertain\":"@ + y2);
    let x0 = tool::bool_json(a.locked) + (",\"latest\":"@ + x1);
    let y0 = tool::bool_json(b.locked) + (",\"latest\":"@ + y1);
    lemma_same_rest("],\"locked\":"@, x0, y0);
    lemma_bool_end(a.locked, ",\"latest\":"@ + x1, b.locked, ",\"latest\":"@ + y1);
    lemma_same_rest(",\"latest\":"@, x1, y1);
    lemma_bool_end(
        a.latest,
        ",\"other_uncertain\":"@ + x2,
        b.latest,
        ",\"other_uncertain\":"@ + y2,
    );
    lemma_same_rest(",\"other_uncertain\":"@, x2, y2);
    lemma_bool_end(a.other_uncertain, "}"@, b.other_uncertain, "}"@);
}

/// The occurrence and what follows it are told by the text.
proof fn lemma_from_occurrence(a: SnapshotView, b: SnapshotView)
    requires
        from_occurrence_json(a) == from_occurrence_json(b),
    ensures
        a.occurrence.execution_state == b.occurrence.execution_state,
        a.occurrence.delivery_state == b.occurrence.delivery_state,
        a.occurrence.output == b.occurrence.output,
        a.occurrence.updated_at == b.occurrence.updated_at,
        surroundings_json(a) == surroundings_json(b),
{
    let o = a.occurrence;
    let p = b.occurrence;
    let x3 = json::string_json(o.updated_at) + surroundings_json(a);
    let y3 = json::string_json(p.updated_at) + surroundings_json(b);
    let x2 = tool::opt_json(o.output) + (","@ + x3);
    let y2 = tool::opt_json(p.output) + (","@ + y3);
    let x1 = json::string_json(o.delivery_state) + (","@ + x2);
    let y1 = json::string_json(p.delivery_state) + (","@ + y2);
    json::lemma_string_end(o.execution_state, ","@ + x1, p.execution_state, ","@ + y1);
    lemma_same_rest(","@, x1, y1);
    json::lemma_string_end(o.delivery_state, ","@ + x2, p.delivery_state, ","@ + y2);
    lemma_same_rest(","@, x2, y2);
    lemma_opt_end(o.output, ","@ + x3, p.output, ","@ + y3);
    lemma_same_rest(","@, x3, y3);
    json::lemma_string_end(o.updated_at, surroundings_json(a), p.updated_at, surroundings_json(b));
}

/// The run and what follows it are told by the text.
proof fn lemma_from_run(a: SnapshotView, b: SnapshotView)
    requires
        from_run_json(a) == from_run_json(b),
    ensures
        a.run.started_at == b.run.started_at,
        a.run.finished_at == b.run.finished_at,
        a.run.status == b.run.status,
        a.run.output == b.run.output,
        from_occurrence_json(a) == from_occurrence_json(b),
{
    let r = a.run;
    let q = b.run;
    let x4 = "],\"occurrence\":["@ + from_occurrence_json(a);
    let y4 = "],\"occurrence\":["@ + from_occurrence_json(b);
    let x3 = tool::opt_json(r.output) + x4;
    let y3 = tool::opt_json(q.output) + y4;
    let x2 = json::string_json(r.status) + (","@ + x3);
    let y2 = json::string_json(q.status) + (","@ + y3);
    let x1 = json::string_json(r.finished_at) + (","@ + x2);
    let y1 = json::string_json(q.finished_at) + (","@ + y2);
    json::lemma_string_end(r.started_at, ","@ + x1, q.started_at, ","@ + y1);
    lemma_same_rest(","@, x1, y1);
    json::lemma_string_end(r.finished_at, ","@ + x2, q.finished_at, ","@ + y2);
    lemma_same_rest(","@, x2, y2);
    json::lemma_string_end(r.status, ","@ + x3, q.status, ","@ + y3);
    lemma_same_rest(","@, x3, y3);
    lemma_opt_end(r.output, x4, q.output, y4);
    lemma_same_rest("],\"occurrence\":["@, from_occurrence_json(a), from_occurrence_json(b));
}

/// What the token is the digest of tells the whole state: two snapshots that are
/// serialized alike have jobs that are serialized alike, and their runs, their
/// occurrences and what surrounds them are the same but for the identifiers by
/// which they were asked for. So a token outlives a change of the state only if
/// two different texts have one digest.
pub proof fn law_token_covers_the_state(
    a: SnapshotView,
    job_a: Seq<char>,
    b: SnapshotView,
    job_b: Seq<char>,
)
    requires
        encode_utf8(snapshot_json(a, job_a)) == encode_utf8(snapshot_json(b, job_b)),
    ensures
        job_a == job_b,
        a.run.started_at == b.run.started_at,
        a.run.finished_at == b.run.finished_at,
        a.run.status == b.run.status,
        a.run.output == b.run.output,
        a.occurrence.execution_state == b.occurrence.execution_state,
        a.occurrence.delivery_state == b.occurrence.delivery_state,
        a.occurrence.output == b.occurrence.output,
        a.occurrence.updated_at == b.occurrence.updated_at,
        a.locked == b.locked,
        a.latest == b.latest,
        a.other_uncertain == b.other_uncertain,
{
    encode_utf8_decode_utf8(snapshot_json(a, job_a));
    encode_utf8_decode_utf8(snapshot_json(b, job_b));
    let x = ",\"run\":["@ + from_run_json(a);
    let y = ",\"run\":["@ + from_run_json(b);
    lemma_same_rest("{\"job\":"@, job_a + x, job_b + y);
    lemma_job_end(a, job_a, b, job_b);
    lemma_job_end(b, job_b, a, job_a);
    assert(job_a =~= (job_a + x).take(job_a.len() as int));
    assert(job_b =~= (job_b + y).take(job_a.len() as int));
    lemma_same_rest(job_a, x, y);
    lemma_same_rest(",\"run\":["@, from_run_json(a), from_run_json(b));
    lemma_from_run(a, b);
    lemma_from_occurrence(a, b);
    lemma_surroundings(a, b);
}

} // verus!
