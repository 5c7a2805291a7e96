//! Wire encoding of comparison reports.
//!
//! A report externalizes as `{"passed":true}` or
//! `{"passed":false,"fail_report":{"<metric>":"<diagnostic>",...}}`.
//! The encoder is verified against a spec-level rendering, which is
//! injective on reports whose entries hold no double quote; the decoder
//! recognizes the passed shape exactly and inverts every encoding of a
//! quote-free entry list.  Decoding an encoded report therefore yields
//! that report — and every report this library builds has quote-free
//! entries.

use vstd::prelude::*;
use vstd::string::*;
use crate::models::ComparisonReport;
use crate::text::str_eq;

verus! {

/// The views of the failure entries.
pub open spec fn view_entries(v: Seq<(String, String)>) -> Seq<(Seq<char>, Seq<char>)> {
    v.map(|i: int, e: (String, String)| (e.0@, e.1@))
}

pub open spec fn spec_passed_json() -> Seq<char> {
    "{\"passed\":true}"@
}

pub open spec fn spec_entry_json(e: (Seq<char>, Seq<char>)) -> Seq<char> {
    "\""@ + e.0 + "\":\""@ + e.1 + "\""@
}

pub open spec fn spec_entries_json(es: Seq<(Seq<char>, Seq<char>)>) -> Seq<char>
    decreases es.len(),
{
    if es.len() == 0 {
        Seq::<char>::empty()
    } else if es.len() == 1 {
        spec_entry_json(es[0])
    } else {
        spec_entry_json(es[0]) + ","@ + spec_entries_json(es.drop_first())
    }
}

pub open spec fn spec_failed_json(es: Seq<(Seq<char>, Seq<char>)>) -> Seq<char> {
    "{\"passed\":false,\"fail_report\":{"@ + spec_entries_json(es) + "}}"@
}

/// The wire rendering of a report.
pub open spec fn spec_report_json(r: ComparisonReport) -> Seq<char> {
    match r {
        ComparisonReport::Passed => spec_passed_json(),
        ComparisonReport::Failed(es) => spec_failed_json(view_entries(es@)),
    }
}

/// Renders the entries from `start` on, comma separated.
fn entries_json(v: &Vec<(String, String)>, start: usize) -> (r: String)
    requires
        start <= v@.len(),
    ensures
        r@ == spec_entries_json(view_entries(v@).skip(start as int)),
    decreases v@.len() - start,
{
    if start == v.len() {
        proof {
            assert(view_entries(v@).skip(start as int) =~= Seq::<(Seq<char>, Seq<char>)>::empty());
        }
        String::new()
    } else {
        let ghost suffix = view_entries(v@).skip(start as int);
        proof {
            assert(suffix[0] == view_entries(v@)[start as int]);
        }
        let e: &(String, String) = &v[start];
        let mut s: String = "\"".to_owned();
        s.append(e.0.as_str());
        s.append("\":\"");
        s.append(e.1.as_str());
        s.append("\"");
        proof {
            assert(s@ =~= spec_entry_json(suffix[0]));
        }
        if start + 1 == v.len() {
            proof {
                assert(suffix.len() == 1);
            }
            s
        } else {
            s.append(",");
            let rest: String = entries_json(v, start + 1);
            s.append(rest.as_str());
            proof {
                assert(suffix.drop_first() =~= view_entries(v@).skip(start as int + 1));
                assert(s@ =~= spec_entry_json(suffix[0]) + ","@ + spec_entries_json(
                    suffix.drop_first(),
                ));
            }
            s
        }
    }
}

/// Encodes a report in its wire shape.
pub fn serialize_report(report: &ComparisonReport) -> (r: String)
    ensures
        r@ == spec_report_json(*report),
{
    match report {
        ComparisonReport::Passed => "{\"passed\":true}".to_owned(),
        ComparisonReport::Failed(es) => {
            let mut s: String = "{\"passed\":false,\"fail_report\":{".to_owned();
            let body: String = entries_json(es, 0);
            s.append(body.as_str());
            s.append("}}");
            proof {
                assert(view_entries(es@).skip(0) =~= view_entries(es@));
                assert(s@ =~= spec_failed_json(view_entries(es@)));
            }
            s
        },
    }
}

/// No character of `s` is a double quote.
pub open spec fn quote_free(s: Seq<char>) -> bool {
    forall|i: int| 0 <= i < s.len() ==> (#[trigger] s[i]) != '"'
}

/// Every entry's key and diagnostic are quote free.
pub open spec fn entries_quote_free(es: Seq<(Seq<char>, Seq<char>)>) -> bool {
    forall|i: int| 0 <= i < es.len() ==> quote_free((#[trigger] es[i]).0) && quote_free(es[i].1)
}

/// Appending an entry extends the rendering at the right.
proof fn lemma_entries_json_push(es: Seq<(Seq<char>, Seq<char>)>, e: (Seq<char>, Seq<char>))
    ensures
        spec_entries_json(es.push(e)) == if es.len() == 0 {
            spec_entry_json(e)
        } else {
            spec_entries_json(es) + ","@ + spec_entry_json(e)
        },
    decreases es.len(),
{
    let p = es.push(e);
    if es.len() == 0 {
        assert(p[0] == e);
    } else if es.len() == 1 {
        assert(p[0] == es[0]);
        assert(p.drop_first() =~= seq![e]);
        assert(spec_entries_json(p.drop_first()) == spec_entry_json(e));
    } else {
        assert(p[0] == es[0]);
        assert(p.drop_first() =~= es.drop_first().push(e));
        lemma_entries_json_push(es.drop_first(), e);
        assert(spec_entry_json(es[0]) + ","@ + (spec_entries_json(es.drop_first()) + ","@
            + spec_entry_json(e)) =~= (spec_entry_json(es[0]) + ","@ + spec_entries_json(
            es.drop_first(),
        )) + ","@ + spec_entry_json(e));
    }
}

/// A quote-terminated segment determines its content: if two quote-free
/// strings followed by a quote open the same string, they are the same
/// string, with the same remainder.
proof fn lemma_quote_segment_unique(a: Seq<char>, ra: Seq<char>, b: Seq<char>, rb: Seq<char>)
    requires
        quote_free(a),
        quote_free(b),
        a + seq!['"'] + ra == b + seq!['"'] + rb,
    ensures
        a == b,
        ra == rb,
{
    let s = a + seq!['"'] + ra;
    let t = b + seq!['"'] + rb;
    if a.len() < b.len() {
        assert(s[a.len() as int] == '"');
        assert(t[a.len() as int] == b[a.len() as int]);
        assert(false);
    }
    if b.len() < a.len() {
        assert(t[b.len() as int] == '"');
        assert(s[b.len() as int] == a[b.len() as int]);
        assert(false);
    }
    assert forall|i: int| 0 <= i < a.len() implies a[i] == b[i] by {
        assert(s[i] == a[i]);
        assert(t[i] == b[i]);
    }
    assert(a =~= b);
    assert(s.len() == a.len() + 1 + ra.len());
    assert(t.len() == b.len() + 1 + rb.len());
    assert forall|i: int| 0 <= i < ra.len() implies ra[i] == rb[i] by {
        assert(s[a.len() + 1 + i] == ra[i]);
        assert(t[b.len() + 1 + i] == rb[i]);
    }
    assert(ra =~= rb);
}

/// One rendered entry determines its key, its value and the remainder.
proof fn lemma_entry_json_unique(
    e1: (Seq<char>, Seq<char>),
    t1: Seq<char>,
    e2: (Seq<char>, Seq<char>),
    t2: Seq<char>,
)
    requires
        quote_free(e1.0),
        quote_free(e1.1),
        quote_free(e2.0),
        quote_free(e2.1),
        spec_entry_json(e1) + t1 == spec_entry_json(e2) + t2,
    ensures
        e1 == e2,
        t1 == t2,
{
    reveal_strlit("\"");
    reveal_strlit("\":\"");
    assert("\""@ =~= seq!['"']);
    assert("\":\""@ =~= seq!['"', ':', '"']);
    let m1 = seq![':', '"'] + e1.1 + seq!['"'] + t1;
    let m2 = seq![':', '"'] + e2.1 + seq!['"'] + t2;
    assert(spec_entry_json(e1) == seq!['"'] + e1.0 + seq!['"', ':', '"'] + e1.1 + seq!['"']);
    assert(spec_entry_json(e2) == seq!['"'] + e2.0 + seq!['"', ':', '"'] + e2.1 + seq!['"']);
    assert(spec_entry_json(e1) + t1 =~= (e1.0 + seq!['"'] + m1).insert(0, '"'));
    assert(spec_entry_json(e2) + t2 =~= (e2.0 + seq!['"'] + m2).insert(0, '"'));
    assert forall|i: int| 0 <= i < (e1.0 + seq!['"'] + m1).len() implies (e1.0 + seq!['"']
        + m1)[i] == (e2.0 + seq!['"'] + m2)[i] by {
        assert((e1.0 + seq!['"'] + m1).insert(0, '"')[i + 1] == (e1.0 + seq!['"'] + m1)[i]);
        assert((e2.0 + seq!['"'] + m2).insert(0, '"')[i + 1] == (e2.0 + seq!['"'] + m2)[i]);
    }
    assert(e1.0 + seq!['"'] + m1 =~= e2.0 + seq!['"'] + m2);
    lemma_quote_segment_unique(e1.0, m1, e2.0, m2);
    assert forall|i: int| 0 <= i < (e1.1 + seq!['"'] + t1).len() implies (e1.1 + seq!['"']
        + t1)[i] == (e2.1 + seq!['"'] + t2)[i] by {
        assert(m1[i + 2] == (e1.1 + seq!['"'] + t1)[i]);
        assert(m2[i + 2] == (e2.1 + seq!['"'] + t2)[i]);
    }
    assert(e1.1 + seq!['"'] + t1 =~= e2.1 + seq!['"'] + t2);
    lemma_quote_segment_unique(e1.1, t1, e2.1, t2);
    assert(e1 == e2);
}

/// A non-empty entry list renders to a non-empty string.
proof fn lemma_entries_json_len(es: Seq<(Seq<char>, Seq<char>)>)
    requires
        es.len() > 0,
    ensures
        spec_entries_json(es).len() >= 5,
{
    reveal_strlit("\"");
    reveal_strlit("\":\"");
    assert(spec_entry_json(es[0]).len() >= 5);
}

/// The rendering of an entry list determines the list: the encoder is
/// injective on quote-free entries.
pub proof fn lemma_entries_json_injective(
    es1: Seq<(Seq<char>, Seq<char>)>,
    es2: Seq<(Seq<char>, Seq<char>)>,
)
    requires
        entries_quote_free(es1),
        entries_quote_free(es2),
        spec_entries_json(es1) == spec_entries_json(es2),
    ensures
        es1 == es2,
    decreases es1.len(),
{
    reveal_strlit("\"");
    reveal_strlit("\":\"");
    reveal_strlit(",");
    if es1.len() == 0 {
        if es2.len() > 0 {
            lemma_entries_json_len(es2);
            assert(false);
        }
        assert(es1 =~= es2);
    } else if es2.len() == 0 {
        lemma_entries_json_len(es1);
        assert(false);
    } else {
        let t1 = if es1.len() == 1 {
            Seq::<char>::empty()
        } else {
            ","@ + spec_entries_json(es1.drop_first())
        };
        let t2 = if es2.len() == 1 {
            Seq::<char>::empty()
        } else {
            ","@ + spec_entries_json(es2.drop_first())
        };
        assert(spec_entries_json(es1) =~= spec_entry_json(es1[0]) + t1);
        assert(spec_entries_json(es2) =~= spec_entry_json(es2[0]) + t2);
        lemma_entry_json_unique(es1[0], t1, es2[0], t2);
        if es1.len() == 1 {
            if es2.len() > 1 {
                assert(t2.len() > 0);
                assert(false);
            }
            assert(es1[0] == es2[0]);
            assert(es1 =~~= es2);
        } else {
            if es2.len() == 1 {
                assert(t1.len() > 0);
                assert(false);
            }
            assert(t1.drop_first() =~= spec_entries_json(es1.drop_first()));
            assert(t2.drop_first() =~= spec_entries_json(es2.drop_first()));
            lemma_entries_json_injective(es1.drop_first(), es2.drop_first());
            assert forall|i: int| 0 <= i < es1.len() implies es1[i] == es2[i] by {
                if i > 0 {
                    assert(es1.drop_first()[i - 1] == es1[i]);
                    assert(es2.drop_first()[i - 1] == es2[i]);
                }
            }
            assert(es1 =~= es2);
        }
    }
}

/// Round-trip support: the wire encoding is injective on reports with
/// quote-free entries, and the passed and failed shapes never collide.
/// So a decoder that accepts a serialized report can only return that
/// report: a deserialized passed report is the passed report, and the
/// entries (in particular the metric names) of a deserialized failed
/// report are exactly the serialized ones.
pub proof fn lemma_report_encoding_injective(
    es1: Seq<(Seq<char>, Seq<char>)>,
    es2: Seq<(Seq<char>, Seq<char>)>,
)
    requires
        entries_quote_free(es1),
        entries_quote_free(es2),
    ensures
        spec_failed_json(es1) == spec_failed_json(es2) ==> es1 == es2,
        spec_passed_json() != spec_failed_json(es1),
{
    reveal_strlit("{\"passed\":true}");
    reveal_strlit("{\"passed\":false,\"fail_report\":{");
    reveal_strlit("}}");
    assert(spec_passed_json().len() == 15);
    assert(spec_failed_json(es1).len() >= 33);
    if spec_failed_json(es1) == spec_failed_json(es2) {
        let m1 = spec_entries_json(es1);
        let m2 = spec_entries_json(es2);
        assert(m1.len() == m2.len());
        assert(forall|i: int| 0 <= i < m1.len() ==> m1[i] == spec_failed_json(es1)[31 + i]);
        assert(forall|i: int| 0 <= i < m2.len() ==> m2[i] == spec_failed_json(es2)[31 + i]);
        assert(m1 =~= m2);
        lemma_entries_json_injective(es1, es2);
    }
}

/// Encodes the typed wire shape of a passed comparison.
pub fn serialize_passed_return(ret: &crate::models::PassedRuntimeReturn) -> (r: String)
    requires
        ret.passed,
    ensures
        r@ == spec_passed_json(),
{
    serialize_report(&ComparisonReport::Passed)
}

/// Encodes the typed wire shape of a failed comparison.
pub fn serialize_failure_return(ret: &crate::models::FailureRuntimeReturn) -> (r: String)
    requires
        !ret.passed,
        ret.fail_report is Some,
    ensures
        r@ == spec_failed_json(view_entries(ret.fail_report->Some_0@)),
{
    match &ret.fail_report {
        Some(es) => {
            let mut s: String = "{\"passed\":false,\"fail_report\":{".to_owned();
            let body: String = entries_json(es, 0);
            s.append(body.as_str());
            s.append("}}");
            proof {
                assert(view_entries(es@).skip(0) =~= view_entries(es@));
                assert(s@ =~= spec_failed_json(view_entries(es@)));
            }
            s
        },
        None => {
            String::new()
        },
    }
}

/// Splitting a subrange at an interior point.
proof fn lemma_subrange_split(s: Seq<char>, a: int, b: int, c: int)
    requires
        0 <= a <= b <= c <= s.len(),
    ensures
        s.subrange(a, c) == s.subrange(a, b) + s.subrange(b, c),
{
    assert(s.subrange(a, c) =~= s.subrange(a, b) + s.subrange(b, c));
}

/// A span opened by a quote, closed by a quote around a colon, is the
/// rendering of the key/value pair it holds.
proof fn lemma_entry_span(s: Seq<char>, p0: int, kq: int, vq: int)
    requires
        0 <= p0 < kq,
        kq + 2 < vq < s.len(),
        s[p0] == '"',
        s[kq] == '"',
        s[kq + 1] == ':',
        s[kq + 2] == '"',
        s[vq] == '"',
    ensures
        s.subrange(p0, vq + 1) == spec_entry_json(
            (s.subrange(p0 + 1, kq), s.subrange(kq + 3, vq)),
        ),
{
    reveal_strlit("\"");
    reveal_strlit("\":\"");
    assert("\""@ =~= seq!['"']);
    assert("\":\""@ =~= seq!['"', ':', '"']);
    let key = s.subrange(p0 + 1, kq);
    let val = s.subrange(kq + 3, vq);
    let e = (key, val);
    assert(spec_entry_json(e) == seq!['"'] + key + seq!['"', ':', '"'] + val + seq!['"']);
    assert forall|i: int| 0 <= i < vq + 1 - p0 implies s.subrange(p0, vq + 1)[i]
        == spec_entry_json(e)[i] by {
        assert(s.subrange(p0, vq + 1)[i] == s[p0 + i]);
        let klen = kq - p0 - 1;
        if i == 0 {
        } else if i <= klen {
            assert(key[i - 1] == s[p0 + i]);
        } else if i == klen + 1 {
            assert(s[p0 + i] == s[kq]);
        } else if i == klen + 2 {
            assert(s[p0 + i] == s[kq + 1]);
        } else if i == klen + 3 {
            assert(s[p0 + i] == s[kq + 2]);
        } else if i <= klen + 3 + val.len() {
            assert(val[i - klen - 4] == s[kq + 3 + (i - klen - 4)]);
        } else {
            assert(p0 + i == vq);
        }
    }
    assert(s.subrange(p0, vq + 1) =~= spec_entry_json(e));
}

/// What a rendered entry list looks like at its first entry: the opening
/// quote, the key, the quote-colon-quote bridge, the value, the closing
/// quote, and then either nothing or a comma and the remaining entries.
proof fn lemma_suffix_shape(s: Seq<char>, p0: int, end: int, es: Seq<(Seq<char>, Seq<char>)>)
    requires
        0 <= p0 <= end <= s.len(),
        es.len() > 0,
        entries_quote_free(es),
        s.subrange(p0, end) == spec_entries_json(es),
    ensures
        ({
            let klen = es[0].0.len() as int;
            let vlen = es[0].1.len() as int;
            let elen = 5 + klen + vlen;
            &&& end - p0 >= elen
            &&& s[p0] == '"'
            &&& forall|j: int| 0 <= j < klen ==> s[p0 + 1 + j] == es[0].0[j] && s[p0 + 1 + j]
                != '"'
            &&& s[p0 + 1 + klen] == '"'
            &&& s[p0 + 2 + klen] == ':'
            &&& s[p0 + 3 + klen] == '"'
            &&& forall|j: int| 0 <= j < vlen ==> s[p0 + 4 + klen + j] == es[0].1[j] && s[p0 + 4
                + klen + j] != '"'
            &&& s[p0 + 4 + klen + vlen] == '"'
            &&& s.subrange(p0 + 1, p0 + 1 + klen) == es[0].0
            &&& s.subrange(p0 + 4 + klen, p0 + 4 + klen + vlen) == es[0].1
            &&& (es.len() == 1 ==> end - p0 == elen)
            &&& (es.len() > 1 ==> end - p0 >= elen + 6 && s[p0 + elen] == ',' && s.subrange(
                p0 + elen + 1,
                end,
            ) == spec_entries_json(es.drop_first()) && es.drop_first().len() > 0
                && entries_quote_free(es.drop_first()))
        }),
{
    reveal_strlit("\"");
    reveal_strlit("\":\"");
    reveal_strlit(",");
    assert("\""@ =~= seq!['"']);
    assert("\":\""@ =~= seq!['"', ':', '"']);
    assert(","@ =~= seq![',']);
    let e = es[0];
    let klen = e.0.len() as int;
    let vlen = e.1.len() as int;
    let elen = 5 + klen + vlen;
    let ent = spec_entry_json(e);
    assert(ent == seq!['"'] + e.0 + seq!['"', ':', '"'] + e.1 + seq!['"']);
    assert(ent.len() == elen);
    let tail: Seq<char> = if es.len() == 1 {
        Seq::<char>::empty()
    } else {
        ","@ + spec_entries_json(es.drop_first())
    };
    assert(spec_entries_json(es) =~= ent + tail);
    assert forall|j: int| 0 <= j < end - p0 implies s[p0 + j] == (ent + tail)[j] by {
        assert(s.subrange(p0, end)[j] == s[p0 + j]);
    }
    assert(end - p0 == elen + tail.len());
    assert(s[p0 + 0] == (ent + tail)[0]);
    assert(s[p0] == '"');
    assert forall|j: int| 0 <= j < klen implies s[p0 + 1 + j] == e.0[j] && s[p0 + 1 + j]
        != '"' by {
        assert(s[p0 + (1 + j)] == (ent + tail)[1 + j]);
        assert((ent + tail)[1 + j] == e.0[j]);
        assert(quote_free(e.0));
    }
    assert(s[p0 + (1 + klen)] == (ent + tail)[1 + klen]);
    assert(s[p0 + (2 + klen)] == (ent + tail)[2 + klen]);
    assert(s[p0 + (3 + klen)] == (ent + tail)[3 + klen]);
    assert((ent + tail)[1 + klen] == '"');
    assert((ent + tail)[2 + klen] == ':');
    assert((ent + tail)[3 + klen] == '"');
    assert forall|j: int| 0 <= j < vlen implies s[p0 + 4 + klen + j] == e.1[j] && s[p0 + 4 + klen
        + j] != '"' by {
        assert(s[p0 + (4 + klen + j)] == (ent + tail)[4 + klen + j]);
        assert((ent + tail)[4 + klen + j] == e.1[j]);
        assert(quote_free(e.1));
    }
    assert(s[p0 + (4 + klen + vlen)] == (ent + tail)[4 + klen + vlen]);
    assert((ent + tail)[4 + klen + vlen] == '"');
    assert forall|j: int| 0 <= j < klen implies s.subrange(p0 + 1, p0 + 1 + klen)[j]
        == e.0[j] by {
        assert(s[p0 + (1 + j)] == (ent + tail)[1 + j]);
    }
    assert(s.subrange(p0 + 1, p0 + 1 + klen) =~= e.0);
    assert forall|j: int| 0 <= j < vlen implies s.subrange(p0 + 4 + klen, p0 + 4 + klen
        + vlen)[j] == e.1[j] by {
        assert(s[p0 + (4 + klen + j)] == (ent + tail)[4 + klen + j]);
    }
    assert(s.subrange(p0 + 4 + klen, p0 + 4 + klen + vlen) =~= e.1);
    if es.len() > 1 {
        assert(tail[0] == ',');
        assert(s[p0 + elen] == (ent + tail)[elen]);
        lemma_entries_json_len(es.drop_first());
        assert forall|i: int| 0 <= i < end - (p0 + elen + 1) implies s.subrange(
            p0 + elen + 1,
            end,
        )[i] == spec_entries_json(es.drop_first())[i] by {
            assert(s[p0 + (elen + 1 + i)] == (ent + tail)[elen + 1 + i]);
            assert((ent + tail)[elen + 1 + i] == tail[1 + i]);
        }
        assert(s.subrange(p0 + elen + 1, end) =~= spec_entries_json(es.drop_first()));
        assert forall|i: int| 0 <= i < es.drop_first().len() implies quote_free(
            (#[trigger] es.drop_first()[i]).0,
        ) && quote_free(es.drop_first()[i].1) by {
            assert(es.drop_first()[i] == es[i + 1]);
        }
    }
}

/// Decodes a wire report.  The passed shape is recognized exactly; a
/// successful failed-shape decode is sound: the input is exactly the
/// encoding of the returned entries, which hold no double quote; and the
/// decoder is complete: on the encoding of any quote-free entry list it
/// returns exactly that list.  Together with the injectivity of the
/// encoding, decoding an encoded report yields that report and no other.
pub open spec fn is_failed_encoding(s: Seq<char>, es: Seq<(Seq<char>, Seq<char>)>) -> bool {
    entries_quote_free(es) && s == spec_failed_json(es)
}

pub fn parse_report(s: &str) -> (r: Option<ComparisonReport>)
    ensures
        (s@ == spec_passed_json()) <==> (r == Some(ComparisonReport::Passed)),
        r matches Some(ComparisonReport::Failed(es)) ==> s@ == spec_failed_json(
            view_entries(es@),
        ) && entries_quote_free(view_entries(es@)),
        forall|es: Seq<(Seq<char>, Seq<char>)>| is_failed_encoding(s@, es) ==> (r matches Some(
            ComparisonReport::Failed(v),
        ) && view_entries(v@) == es),
{
    if str_eq(s, "{\"passed\":true}") {
        proof {
            assert forall|es: Seq<(Seq<char>, Seq<char>)>| is_failed_encoding(s@, es)
                implies false by {
                lemma_report_encoding_injective(es, es);
            }
        }
        return Some(ComparisonReport::Passed);
    }
    let prefix: &str = "{\"passed\":false,\"fail_report\":{";
    let plen: usize = prefix.unicode_len();
    proof {
        reveal_strlit("{\"passed\":false,\"fail_report\":{");
        assert(plen == 31);
    }
    let n: usize = s.unicode_len();
    if n < plen + 2 {
        proof {
            assert forall|es: Seq<(Seq<char>, Seq<char>)>| is_failed_encoding(s@, es)
                implies false by {
                reveal_strlit("}}");
                assert(spec_failed_json(es).len() >= 33);
            }
        }
        return None;
    }
    let head: &str = s.substring_char(0, plen);
    if !str_eq(head, prefix) {
        proof {
            assert forall|es: Seq<(Seq<char>, Seq<char>)>| is_failed_encoding(s@, es)
                implies false by {
                assert forall|i: int| 0 <= i < 31 implies head@[i]
                    == "{\"passed\":false,\"fail_report\":{"@[i] by {
                    assert(head@[i] == s@[i]);
                    assert(s@[i] == spec_failed_json(es)[i]);
                }
                assert(head@ =~= "{\"passed\":false,\"fail_report\":{"@);
            }
        }
        return None;
    }
    let tail: &str = s.substring_char(n - 2, n);
    if !str_eq(tail, "}}") {
        proof {
            assert forall|es: Seq<(Seq<char>, Seq<char>)>| is_failed_encoding(s@, es)
                implies false by {
                reveal_strlit("}}");
                assert(spec_failed_json(es).len() == 33 + spec_entries_json(es).len());
                assert forall|i: int| 0 <= i < 2 implies tail@[i] == "}}"@[i] by {
                    assert(tail@[i] == s@[n - 2 + i]);
                    assert(s@[n - 2 + i] == spec_failed_json(es)[n - 2 + i]);
                }
                assert(tail@ =~= "}}"@);
            }
        }
        return None;
    }
    let end: usize = n - 2;
    proof {
        assert(s@.subrange(0, 31) == "{\"passed\":false,\"fail_report\":{"@);
        assert(s@.subrange(end as int, s@.len() as int) == "}}"@);
    }
    let mut p: usize = plen;
    let mut entries: Vec<(String, String)> = Vec::new();
    let ghost hyp = exists|es: Seq<(Seq<char>, Seq<char>)>| is_failed_encoding(s@, es);
    let ghost mut suffix_es: Seq<(Seq<char>, Seq<char>)> = if hyp {
        choose|es: Seq<(Seq<char>, Seq<char>)>| is_failed_encoding(s@, es)
    } else {
        Seq::empty()
    };
    proof {
        if hyp {
            assert(is_failed_encoding(s@, suffix_es));
            assert(s@.len() == 33 + spec_entries_json(suffix_es).len());
            assert forall|j: int| 0 <= j < end - 31 implies s@.subrange(31, end as int)[j]
                == spec_entries_json(suffix_es)[j] by {
                assert(s@.subrange(31, end as int)[j] == s@[31 + j]);
                assert(s@[31 + j] == spec_failed_json(suffix_es)[31 + j]);
            }
            assert(s@.subrange(31, end as int) =~= spec_entries_json(suffix_es));
        }
    }
    if p == end {
        proof {
            assert(view_entries(entries@) =~= Seq::<(Seq<char>, Seq<char>)>::empty());
            lemma_subrange_split(s@, 0, 31, s@.len() as int);
            assert(s@.subrange(0, s@.len() as int) =~= s@);
            assert(spec_entries_json(view_entries(entries@)) =~= s@.subrange(31, end as int));
            assert(s@ =~= spec_failed_json(view_entries(entries@)));
            assert forall|es2: Seq<(Seq<char>, Seq<char>)>| is_failed_encoding(s@, es2)
                implies view_entries(entries@) == es2 by {
                lemma_report_encoding_injective(view_entries(entries@), es2);
            }
        }
        return Some(ComparisonReport::Failed(entries));
    }
    proof {
        if hyp && suffix_es.len() == 0 {
            assert(spec_entries_json(suffix_es).len() == 0);
            assert(false);
        }
    }
    while p < end
        invariant
            31 <= p <= end,
            end + 2 == s@.len(),
            s@ != spec_passed_json(),
            s@.subrange(0, 31) == "{\"passed\":false,\"fail_report\":{"@,
            s@.subrange(end as int, s@.len() as int) == "}}"@,
            entries_quote_free(view_entries(entries@)),
            entries@.len() == 0 ==> p == 31,
            entries@.len() > 0 ==> s@.subrange(31, p as int) == spec_entries_json(
                view_entries(entries@),
            ) + ","@,
            hyp == exists|es: Seq<(Seq<char>, Seq<char>)>| is_failed_encoding(s@, es),
            hyp ==> suffix_es.len() > 0 && entries_quote_free(suffix_es) && s@.subrange(
                p as int,
                end as int,
            ) == spec_entries_json(suffix_es),
        decreases end - p,
    {
        let ghost p0 = p as int;
        let ghost klen = suffix_es[0].0.len() as int;
        let ghost vlen = suffix_es[0].1.len() as int;
        let ghost elen = 5 + klen + vlen;
        proof {
            if hyp {
                lemma_suffix_shape(s@, p0, end as int, suffix_es);
            }
        }
        if s.get_char(p) != '"' {
            proof {
                if hyp {
                    assert(false);
                }
                assert forall|es2: Seq<(Seq<char>, Seq<char>)>| is_failed_encoding(s@, es2)
                    implies false by {
                    assert(hyp);
                }
            }
            return None;
        }
        p = p + 1;
        let kstart: usize = p;
        while p < end && s.get_char(p) != '"'
            invariant
                kstart <= p <= end,
                end + 2 == s@.len(),
                forall|j: int| kstart <= j < p ==> s@[j] != '"',
            decreases end - p,
        {
            p = p + 1;
        }
        if p >= end {
            proof {
                if hyp {
                    if p > p0 + 1 + klen {
                        assert(s@[p0 + 1 + klen] != '"');
                    }
                    assert(p <= p0 + 1 + klen);
                    assert(false);
                }
                assert forall|es2: Seq<(Seq<char>, Seq<char>)>| is_failed_encoding(s@, es2)
                    implies false by {
                    assert(hyp);
                }
            }
            return None;
        }
        let ghost kq = p as int;
        let key: String = s.substring_char(kstart, p).to_owned();
        p = p + 1;
        proof {
            if hyp {
                if kq > p0 + 1 + klen {
                    assert(s@[p0 + 1 + klen] != '"');
                }
                if kq < p0 + 1 + klen {
                    assert(s@[kq] == suffix_es[0].0[kq - p0 - 1]);
                }
                assert(kq == p0 + 1 + klen);
                assert(key@ == s@.subrange(p0 + 1, p0 + 1 + klen));
                assert(key@ == suffix_es[0].0);
            }
        }
        if p >= end || s.get_char(p) != ':' {
            proof {
                if hyp {
                    assert(p == p0 + 2 + klen);
                    assert(s@[p0 + 2 + klen] == ':');
                    assert(p0 + 2 + klen < end);
                    assert(false);
                }
                assert forall|es2: Seq<(Seq<char>, Seq<char>)>| is_failed_encoding(s@, es2)
                    implies false by {
                    assert(hyp);
                }
            }
            return None;
        }
        p = p + 1;
        if p >= end || s.get_char(p) != '"' {
            proof {
                if hyp {
                    assert(p == p0 + 3 + klen);
                    assert(s@[p0 + 3 + klen] == '"');
                    assert(p0 + 3 + klen < end);
                    assert(false);
                }
                assert forall|es2: Seq<(Seq<char>, Seq<char>)>| is_failed_encoding(s@, es2)
                    implies false by {
                    assert(hyp);
                }
            }
            return None;
        }
        p = p + 1;
        let vstart: usize = p;
        while p < end && s.get_char(p) != '"'
            invariant
                vstart <= p <= end,
                end + 2 == s@.len(),
                forall|j: int| vstart <= j < p ==> s@[j] != '"',
            decreases end - p,
        {
            p = p + 1;
        }
        if p >= end {
            proof {
                if hyp {
                    if p > p0 + 4 + klen + vlen {
                        assert(s@[p0 + 4 + klen + vlen] != '"');
                    }
                    assert(p <= p0 + 4 + klen + vlen);
                    assert(p0 + 4 + klen + vlen < end);
                    assert(false);
                }
                assert forall|es2: Seq<(Seq<char>, Seq<char>)>| is_failed_encoding(s@, es2)
                    implies false by {
                    assert(hyp);
                }
            }
            return None;
        }
        let ghost vq = p as int;
        let val: String = s.substring_char(vstart, p).to_owned();
        p = p + 1;
        proof {
            if hyp {
                assert(vstart == p0 + 4 + klen);
                if vq > p0 + 4 + klen + vlen {
                    assert(s@[p0 + 4 + klen + vlen] != '"');
                }
                if vq < p0 + 4 + klen + vlen {
                    assert(s@[vq] == suffix_es[0].1[vq - vstart]);
                }
                assert(vq == p0 + 4 + klen + vlen);
                assert(val@ == suffix_es[0].1);
            }
        }
        let ghost prev = entries@;
        entries.push((key, val));
        proof {
            assert forall|j: int| 0 <= j < key@.len() implies key@[j] != '"' by {
                assert(key@[j] == s@[kstart + j]);
            }
            assert forall|j: int| 0 <= j < val@.len() implies val@[j] != '"' by {
                assert(val@[j] == s@[vstart + j]);
            }
            assert(quote_free(key@));
            assert(quote_free(val@));
            assert(view_entries(entries@) =~= view_entries(prev).push((key@, val@)));
            assert(entries_quote_free(view_entries(entries@)));
            lemma_entry_span(s@, p0, kq, vq);
            lemma_entries_json_push(view_entries(prev), (key@, val@));
            if prev.len() == 0 {
                assert(p0 == 31);
                assert(s@.subrange(31, vq + 1) == spec_entries_json(view_entries(entries@)));
            } else {
                lemma_subrange_split(s@, 31, p0, vq + 1);
                assert(s@.subrange(31, vq + 1) == (spec_entries_json(view_entries(prev)) + ","@)
                    + spec_entry_json((key@, val@)));
                assert((spec_entries_json(view_entries(prev)) + ","@) + spec_entry_json(
                    (key@, val@),
                ) =~= spec_entries_json(view_entries(prev)) + ","@ + spec_entry_json(
                    (key@, val@),
                ));
                assert(s@.subrange(31, vq + 1) == spec_entries_json(view_entries(entries@)));
            }
        }
        if p == end {
            proof {
                lemma_subrange_split(s@, 0, 31, end as int);
                lemma_subrange_split(s@, 0, end as int, s@.len() as int);
                assert(s@.subrange(0, s@.len() as int) =~= s@);
                assert(s@ == (s@.subrange(0, 31) + s@.subrange(31, end as int)) + s@.subrange(
                    end as int,
                    s@.len() as int,
                ));
                assert(s@ == spec_failed_json(view_entries(entries@)));
                assert forall|es2: Seq<(Seq<char>, Seq<char>)>| is_failed_encoding(s@, es2)
                    implies view_entries(entries@) == es2 by {
                    lemma_report_encoding_injective(view_entries(entries@), es2);
                }
            }
            return Some(ComparisonReport::Failed(entries));
        }
        if s.get_char(p) != ',' {
            proof {
                if hyp {
                    assert(p == p0 + elen);
                    if suffix_es.len() == 1 {
                        assert(end - p0 == elen);
                    }
                    assert(suffix_es.len() > 1);
                    assert(s@[p0 + elen] == ',');
                    assert(false);
                }
                assert forall|es2: Seq<(Seq<char>, Seq<char>)>| is_failed_encoding(s@, es2)
                    implies false by {
                    assert(hyp);
                }
            }
            return None;
        }
        p = p + 1;
        proof {
            reveal_strlit(",");
            lemma_subrange_split(s@, 31, vq + 1, p as int);
            assert(s@.subrange(vq + 1, p as int) =~= ","@);
            assert(s@.subrange(31, p as int) == spec_entries_json(view_entries(entries@))
                + ","@);
            if hyp {
                if suffix_es.len() == 1 {
                    assert(end - p0 == elen);
                    assert(false);
                }
                suffix_es = suffix_es.drop_first();
                assert(s@.subrange(p as int, end as int) == spec_entries_json(suffix_es));
            }
        }
        if p == end {
            proof {
                if hyp {
                    lemma_entries_json_len(suffix_es);
                    assert(false);
                }
                assert forall|es2: Seq<(Seq<char>, Seq<char>)>| is_failed_encoding(s@, es2)
                    implies false by {
                    assert(hyp);
                }
            }
            return None;
        }
    }
    proof {
        if hyp {
            lemma_entries_json_len(suffix_es);
            assert(false);
        }
        assert forall|es2: Seq<(Seq<char>, Seq<char>)>| is_failed_encoding(s@, es2)
            implies false by {
            assert(hyp);
        }
    }
    None
}

proof fn lemma_quote_free_concat(a: Seq<char>, b: Seq<char>)
    requires
        quote_free(a),
        quote_free(b),
    ensures
        quote_free(a + b),
{
    assert forall|i: int| 0 <= i < (a + b).len() implies (a + b)[i] != '"' by {
        if i < a.len() {
            assert((a + b)[i] == a[i]);
        } else {
            assert((a + b)[i] == b[i - a.len()]);
        }
    }
}

proof fn lemma_decimal_quote_free(n: int)
    ensures
        quote_free(crate::text::spec_decimal(n)),
    decreases n,
{
    assert(crate::text::spec_digit(n % 10) != '"');
    assert(crate::text::spec_digit(n) != '"');
    if n >= 10 {
        lemma_decimal_quote_free(n / 10);
        lemma_quote_free_concat(
            crate::text::spec_decimal(n / 10),
            seq![crate::text::spec_digit(n % 10)],
        );
    }
}

proof fn lemma_rat_seq_quote_free(r: crate::ratio::Ratio)
    ensures
        quote_free(crate::runtime::spec_rat_seq(r)),
{
    reveal_strlit("-");
    reveal_strlit("/");
    assert(quote_free("-"@));
    assert(quote_free("/"@));
    lemma_decimal_quote_free(r.num as int);
    lemma_decimal_quote_free(-r.num as int);
    lemma_decimal_quote_free(r.den as int);
    if r.num < 0 {
        lemma_quote_free_concat("-"@, crate::text::spec_decimal(-r.num as int));
        lemma_quote_free_concat(
            "-"@ + crate::text::spec_decimal(-r.num as int),
            "/"@,
        );
        lemma_quote_free_concat(
            "-"@ + crate::text::spec_decimal(-r.num as int) + "/"@,
            crate::text::spec_decimal(r.den as int),
        );
    } else {
        lemma_quote_free_concat(crate::text::spec_decimal(r.num as int), "/"@);
        lemma_quote_free_concat(
            crate::text::spec_decimal(r.num as int) + "/"@,
            crate::text::spec_decimal(r.den as int),
        );
    }
}

/// A drift diagnostic never holds a double quote (given a quote-free
/// metric name).
proof fn lemma_diag_quote_free(name: Seq<char>, b: crate::ratio::Ratio, l: crate::ratio::Ratio)
    requires
        quote_free(name),
    ensures
        quote_free(crate::runtime::spec_diag(name, b, l)),
{
    reveal_strlit(": baseline ");
    reveal_strlit(", latest ");
    reveal_strlit(", increased beyond threshold");
    reveal_strlit(", decreased beyond threshold");
    assert(quote_free(": baseline "@));
    assert(quote_free(", latest "@));
    assert(quote_free(", increased beyond threshold"@));
    assert(quote_free(", decreased beyond threshold"@));
    lemma_rat_seq_quote_free(b);
    lemma_rat_seq_quote_free(l);
    lemma_quote_free_concat(name, ": baseline "@);
    lemma_quote_free_concat(name + ": baseline "@, crate::runtime::spec_rat_seq(b));
    lemma_quote_free_concat(
        name + ": baseline "@ + crate::runtime::spec_rat_seq(b),
        ", latest "@,
    );
    lemma_quote_free_concat(
        name + ": baseline "@ + crate::runtime::spec_rat_seq(b) + ", latest "@,
        crate::runtime::spec_rat_seq(l),
    );
    let stem = name + ": baseline "@ + crate::runtime::spec_rat_seq(b) + ", latest "@
        + crate::runtime::spec_rat_seq(l);
    lemma_quote_free_concat(stem, ", increased beyond threshold"@);
    lemma_quote_free_concat(stem, ", decreased beyond threshold"@);
}

/// One comparison step keeps the failure entries quote free.
proof fn lemma_step_failures_quote_free(
    s: Seq<(Seq<char>, Seq<char>)>,
    name: Seq<char>,
    b: crate::ratio::Ratio,
    l: crate::ratio::Ratio,
    t: crate::ratio::Ratio,
)
    requires
        entries_quote_free(s),
        quote_free(name),
    ensures
        entries_quote_free(crate::runtime::step_failures(s, name, b, l, t)),
{
    lemma_diag_quote_free(name, b, l);
    let out = crate::runtime::step_failures(s, name, b, l, t);
    assert forall|i: int| 0 <= i < out.len() implies quote_free((#[trigger] out[i]).0)
        && quote_free(out[i].1) by {
        if i < s.len() {
            assert(out[i] == s[i]);
        }
    }
}

/// The failure entries of a data-bias comparison are quote free, so the
/// wire encoding of its report is injective.
pub proof fn lemma_data_bias_failures_quote_free(
    b: crate::runtime::DataBiasRuntime,
    l: crate::runtime::DataBiasRuntime,
    t: crate::ratio::Ratio,
)
    ensures
        entries_quote_free(crate::runtime::data_bias_failures(b, l, t)),
{
    reveal_strlit("a_acceptance");
    reveal_strlit("d_acceptance");
    assert(quote_free("a_acceptance"@));
    assert(quote_free("d_acceptance"@));
    let s0 = Seq::<(Seq<char>, Seq<char>)>::empty();
    lemma_step_failures_quote_free(s0, "a_acceptance"@, b.a_acceptance, l.a_acceptance, t);
    let s1 = crate::runtime::step_failures(s0, "a_acceptance"@, b.a_acceptance, l.a_acceptance, t);
    lemma_step_failures_quote_free(s1, "d_acceptance"@, b.d_acceptance, l.d_acceptance, t);
}

/// The failure entries of a model-bias comparison are quote free.
pub proof fn lemma_model_bias_failures_quote_free(
    b: crate::runtime::ModelBiasRuntime,
    l: crate::runtime::ModelBiasRuntime,
    t: crate::ratio::Ratio,
)
    ensures
        entries_quote_free(crate::runtime::model_bias_failures(b, l, t)),
{
    reveal_strlit("diff_in_positive_proportions");
    reveal_strlit("disparate_impact");
    reveal_strlit("accuracy_difference");
    reveal_strlit("diff_in_true_positive_rates");
    reveal_strlit("diff_in_false_positive_rates");
    assert(quote_free("diff_in_positive_proportions"@));
    assert(quote_free("disparate_impact"@));
    assert(quote_free("accuracy_difference"@));
    assert(quote_free("diff_in_true_positive_rates"@));
    assert(quote_free("diff_in_false_positive_rates"@));
    let s0 = Seq::<(Seq<char>, Seq<char>)>::empty();
    lemma_step_failures_quote_free(
        s0,
        "diff_in_positive_proportions"@,
        b.diff_in_positive_proportions,
        l.diff_in_positive_proportions,
        t,
    );
    let s1 = crate::runtime::step_failures(
        s0,
        "diff_in_positive_proportions"@,
        b.diff_in_positive_proportions,
        l.diff_in_positive_proportions,
        t,
    );
    lemma_step_failures_quote_free(s1, "disparate_impact"@, b.disparate_impact, l.disparate_impact, t);
    let s2 = crate::runtime::step_failures(
        s1,
        "disparate_impact"@,
        b.disparate_impact,
        l.disparate_impact,
        t,
    );
    lemma_step_failures_quote_free(
        s2,
        "accuracy_difference"@,
        b.accuracy_difference,
        l.accuracy_difference,
        t,
    );
    let s3 = crate::runtime::step_failures(
        s2,
        "accuracy_difference"@,
        b.accuracy_difference,
        l.accuracy_difference,
        t,
    );
    lemma_step_failures_quote_free(
        s3,
        "diff_in_true_positive_rates"@,
        b.diff_in_true_positive_rates,
        l.diff_in_true_positive_rates,
        t,
    );
    let s4 = crate::runtime::step_failures(
        s3,
        "diff_in_true_positive_rates"@,
        b.diff_in_true_positive_rates,
        l.diff_in_true_positive_rates,
        t,
    );
    lemma_step_failures_quote_free(
        s4,
        "diff_in_false_positive_rates"@,
        b.diff_in_false_positive_rates,
        l.diff_in_false_positive_rates,
        t,
    );
}

/// The failure entries of a regression-performance comparison are quote
/// free.
pub proof fn lemma_regression_failures_quote_free(
    b: crate::runtime::LinearRegressionReport,
    l: crate::runtime::LinearRegressionReport,
    t: crate::ratio::Ratio,
)
    ensures
        entries_quote_free(crate::runtime::regression_failures(b, l, t)),
{
    reveal_strlit("mae");
    reveal_strlit("mse");
    reveal_strlit("rmse");
    reveal_strlit("r2");
    assert(quote_free("mae"@));
    assert(quote_free("mse"@));
    assert(quote_free("rmse"@));
    assert(quote_free("r2"@));
    let s0 = Seq::<(Seq<char>, Seq<char>)>::empty();
    lemma_step_failures_quote_free(s0, "mae"@, b.mae, l.mae, t);
    let s1 = crate::runtime::step_failures(s0, "mae"@, b.mae, l.mae, t);
    lemma_step_failures_quote_free(s1, "mse"@, b.mse, l.mse, t);
    let s2 = crate::runtime::step_failures(s1, "mse"@, b.mse, l.mse, t);
    lemma_step_failures_quote_free(s2, "rmse"@, b.rmse, l.rmse, t);
    let s3 = crate::runtime::step_failures(s2, "rmse"@, b.rmse, l.rmse, t);
    lemma_step_failures_quote_free(s3, "r2"@, b.r2, l.r2, t);
}

} // verus!
