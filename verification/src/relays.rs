//! The relay list: parsing it from configuration text, and choosing the
//! startup shortlist from latency probes.

use std::str::FromStr;

use vstd::prelude::*;
use vstd::string::*;

use crate::resolver::opt_text;
use crate::text::{
    char_is_whitespace, chars_of, is_ascii_whitespace, is_whitespace, lemma_text_lt_irreflexive,
    lemma_text_lt_transitive, lemma_trim_end, lemma_trim_start, text_less, text_lt, trim, trim_end, trim_start,
};

verus! {

/// How many relays the startup shortlist keeps.
pub const STARTUP_RELAY_SELECTION_MAX: usize = 5;

/// Whether `c` separates entries of a relay list: a comma, a semicolon or ASCII
/// whitespace.
pub open spec fn is_list_separator(c: char) -> bool {
    c == ',' || c == ';' || is_ascii_whitespace(c)
}

/// The pieces of `s` between separators, as `str::split` yields them: `k`
/// separators give `k + 1` pieces, some of them possibly empty.
pub open spec fn split_list(s: Seq<char>) -> Seq<Seq<char>>
    decreases s.len(),
{
    if s.len() == 0 {
        seq![Seq::empty()]
    } else {
        let pieces = split_list(s.drop_last());
        if is_list_separator(s.last()) {
            pieces.push(Seq::empty())
        } else {
            pieces.update(pieces.len() - 1, pieces.last().push(s.last()))
        }
    }
}

/// The trimmed pieces that are not empty, in order.
pub open spec fn list_tokens(pieces: Seq<Seq<char>>) -> Seq<Seq<char>>
    decreases pieces.len(),
{
    if pieces.len() == 0 {
        Seq::empty()
    } else if trim(pieces.last()).len() == 0 {
        list_tokens(pieces.drop_last())
    } else {
        list_tokens(pieces.drop_last()).push(trim(pieces.last()))
    }
}

/// Whether `s` holds `://`.
pub open spec fn has_scheme_separator(s: Seq<char>) -> bool {
    exists|i: int| 0 <= i && i + 2 < s.len() && #[trigger] s[i] == ':' && s[i + 1] == '/' && s[i + 2] == '/'
}

/// A relay entry as given, when it names a scheme; otherwise the entry with
/// `https://` in front.
pub open spec fn spec_normalize_relay_url(raw: Seq<char>) -> Seq<char> {
    if has_scheme_separator(raw) {
        raw
    } else {
        "https://"@ + raw
    }
}

/// Gives a relay entry without a scheme the `https://` scheme.
pub fn normalize_relay_url(raw: &str) -> (r: String)
    ensures
        r@ == spec_normalize_relay_url(raw@),
{
    let chars = chars_of(raw);
    let n = chars.len();
    let mut i: usize = 0;
    let mut found = false;
    while i < n && n - i > 2
        invariant
            chars@ == raw@,
            n == chars@.len(),
            found ==> has_scheme_separator(raw@),
            !found ==> forall|j: int| 0 <= j < i && j + 2 < n ==> !(#[trigger] raw@[j] == ':' && raw@[j + 1] == '/' && raw@[j + 2] == '/'),
        decreases n - i,
    {
        if chars[i] == ':' && chars[i + 1] == '/' && chars[i + 2] == '/' {
            found = true;
            assert(raw@[i as int] == ':' && raw@[i + 1] == '/' && raw@[i + 2] == '/');
        }
        i = i + 1;
    }
    if found {
        raw.to_owned()
    } else {
        "https://".to_owned().concat(raw)
    }
}

/// The text that `RelayUrl` keeps for the URL that `text` denotes, if it
/// denotes one (the `url` crate's serialization of it).
pub uninterp spec fn relay_url_text(text: Seq<char>) -> Option<Seq<char>>;

/// Parses a relay URL with `iroh_base::RelayUrl::from_str` and gives back the
/// parsed URL's text (`RelayUrl`'s `Display`, which is the URL's serialization).
///
/// Trusted: the result is `relay_url_text` of the text. Two `RelayUrl`s are equal
/// exactly when these texts are (`Url`'s `PartialEq` compares serializations).
#[verifier::external_body]
fn parse_relay_url(text: &str) -> (r: Option<String>)
    ensures
        r is Some <==> relay_url_text(text@) is Some,
        r matches Some(url) ==> relay_url_text(text@) == Some(url@),
{
    match iroh_base::RelayUrl::from_str(text) {
        Ok(url) => Some(url.to_string()),
        Err(_) => None,
    }
}

/// The texts of a sequence of strings.
pub open spec fn texts(v: Seq<String>) -> Seq<Seq<char>> {
    v.map_values(|s: String| s@)
}

/// The trimmed text of `raw[start..end]`, when it is not empty.
fn trimmed_piece(raw: &str, chars: &Vec<char>, start: usize, end: usize) -> (r: Option<String>)
    requires
        chars@ == raw@,
        start <= end <= chars@.len(),
    ensures
        match r {
            Some(t) => t@ == trim(raw@.subrange(start as int, end as int)) && t@.len() > 0,
            None => trim(raw@.subrange(start as int, end as int)).len() == 0,
        },
{
    let mut a = start;
    while a < end && char_is_whitespace(chars[a])
        invariant
            chars@ == raw@,
            start <= a <= end <= chars@.len(),
            forall|j: int| start <= j < a ==> is_whitespace(#[trigger] raw@[j]),
        decreases end - a,
    {
        a = a + 1;
    }
    let mut b = end;
    while b > a && char_is_whitespace(chars[b - 1])
        invariant
            chars@ == raw@,
            start <= a <= b <= end <= chars@.len(),
            forall|j: int| b <= j < end ==> is_whitespace(#[trigger] raw@[j]),
            a < end ==> !is_whitespace(raw@[a as int]),
        decreases b - a,
    {
        b = b - 1;
    }
    proof {
        let p = raw@.subrange(start as int, end as int);
        assert forall|j: int| 0 <= j < a - start implies is_whitespace(#[trigger] p[j]) by {
            assert(p[j] == raw@[start + j]);
        }
        lemma_trim_start(p, a - start);
        let q = raw@.subrange(a as int, end as int);
        assert(p.subrange(a - start, p.len() as int) =~= q);
        assert forall|j: int| b - a <= j < q.len() implies is_whitespace(#[trigger] q[j]) by {
            assert(q[j] == raw@[a + j]);
        }
        if b > a {
            assert(q[b - a - 1] == raw@[b - 1]);
        }
        lemma_trim_end(q, b - a);
        assert(q.subrange(0, b - a) =~= raw@.subrange(a as int, b as int));
    }
    if a == b {
        None
    } else {
        Some(raw.substring_char(a, b).to_owned())
    }
}

/// The non-empty trimmed entries of a relay list, in order.
pub fn relay_list_tokens(raw: &str) -> (v: Vec<String>)
    ensures
        texts(v@) == list_tokens(split_list(raw@)),
{
    let chars = chars_of(raw);
    let n = chars.len();
    let mut tokens: Vec<String> = Vec::new();
    let mut start: usize = 0;
    assert(raw@.take(0) =~= Seq::<char>::empty());
    for i in 0..n
        invariant
            chars@ == raw@,
            n == chars@.len(),
            start <= i,
            split_list(raw@.take(i as int)).len() > 0,
            split_list(raw@.take(i as int)).last() == raw@.subrange(start as int, i as int),
            texts(tokens@) == list_tokens(split_list(raw@.take(i as int)).drop_last()),
    {
        let ghost p = split_list(raw@.take(i as int));
        assert(raw@.take(i + 1).drop_last() =~= raw@.take(i as int));
        assert(raw@.take(i + 1).last() == raw@[i as int]);
        if chars[i] == ',' || chars[i] == ';' || chars[i] == ' ' || chars[i] == '\t' || chars[i] == '\n'
            || chars[i] == '\x0C' || chars[i] == '\r' {
            let ghost before = tokens@;
            match trimmed_piece(raw, &chars, start, i) {
                Some(t) => {
                    tokens.push(t);
                    assert(texts(tokens@) =~= texts(before).push(t@));
                },
                None => {},
            }
            assert(split_list(raw@.take(i + 1)) == p.push(Seq::empty()));
            assert(p.push(Seq::<char>::empty()).drop_last() =~= p);
            assert(p.drop_last().push(p.last()) =~= p);
            start = i + 1;
            assert(raw@.subrange(start as int, i + 1) =~= Seq::<char>::empty());
        } else {
            let ghost q = p.update(p.len() - 1, p.last().push(raw@[i as int]));
            assert(split_list(raw@.take(i + 1)) == q);
            assert(q.drop_last() =~= p.drop_last());
            assert(q.last() =~= raw@.subrange(start as int, i + 1));
        }
    }
    assert(raw@.take(n as int) =~= raw@);
    let ghost p = split_list(raw@);
    let ghost before = tokens@;
    match trimmed_piece(raw, &chars, start, n) {
        Some(t) => {
            tokens.push(t);
            assert(texts(tokens@) =~= texts(before).push(t@));
        },
        None => {},
    }
    assert(p.drop_last().push(p.last()) =~= p);
    tokens
}

/// Why a relay list was rejected.
#[derive(Clone, Copy, Debug, PartialEq, Eq, Structural)]
pub enum RelayListError {
    /// An entry is not a URL.
    InvalidUrl,
    /// The list holds no entry.
    Empty,
}

impl RelayListError {
    /// The message that reports the rejection.
    pub open spec fn spec_message(self) -> Seq<char> {
        match self {
            RelayListError::InvalidUrl => "Failed parsing relay URL list. Expected comma/space/newline separated URLs"@,
            RelayListError::Empty => "Relay URL list was provided but empty after parsing"@,
        }
    }

    /// The message that reports the rejection (see [`RelayListError::spec_message`]).
    pub fn message(&self) -> (r: String)
        ensures
            r@ == self.spec_message(),
    {
        match self {
            RelayListError::InvalidUrl => "Failed parsing relay URL list. Expected comma/space/newline separated URLs".to_owned(),
            RelayListError::Empty => "Relay URL list was provided but empty after parsing".to_owned(),
        }
    }
}

/// `s` without repeats, keeping the first occurrence of each element.
pub open spec fn dedup(s: Seq<Seq<char>>) -> Seq<Seq<char>>
    decreases s.len(),
{
    if s.len() == 0 {
        s
    } else {
        let d = dedup(s.drop_last());
        if d.contains(s.last()) {
            d
        } else {
            d.push(s.last())
        }
    }
}

/// The parsed URL text of each entry, normalized first.
pub open spec fn parsed_urls(tokens: Seq<Seq<char>>) -> Seq<Seq<char>> {
    Seq::new(tokens.len(), |i: int| relay_url_text(spec_normalize_relay_url(tokens[i]))->0)
}

/// The relays that a relay list names: its entries, split at commas,
/// semicolons and ASCII whitespace, trimmed, empty ones dropped, given a scheme
/// where they lack one, parsed, and with repeats dropped; or why it names none.
pub open spec fn spec_parse_relay_urls(raw: Seq<char>) -> Result<Seq<Seq<char>>, RelayListError> {
    let tokens = list_tokens(split_list(raw));
    if exists|i: int| 0 <= i < tokens.len() && (#[trigger] relay_url_text(spec_normalize_relay_url(tokens[i]))) is None {
        Err(RelayListError::InvalidUrl)
    } else if tokens.len() == 0 {
        Err(RelayListError::Empty)
    } else {
        Ok(dedup(parsed_urls(tokens)))
    }
}

/// Whether `v` holds a string with the text of `x`.
fn holds_text(v: &Vec<String>, x: &String) -> (r: bool)
    ensures
        r == texts(v@).contains(x@),
{
    for j in 0..v.len()
        invariant
            forall|k: int| 0 <= k < j ==> v@[k]@ != x@,
    {
        if v[j] == *x {
            assert(texts(v@)[j as int] == x@);
            return true;
        }
    }
    proof {
        if texts(v@).contains(x@) {
            let k = choose|k: int| 0 <= k < texts(v@).len() && texts(v@)[k] == x@;
            assert(v@[k]@ == x@);
        }
    }
    false
}

/// Parses a relay list (see [`spec_parse_relay_urls`]), giving the text of each
/// relay URL.
pub fn parse_relay_urls(raw: &str) -> (r: Result<Vec<String>, RelayListError>)
    ensures
        match r {
            Ok(v) => spec_parse_relay_urls(raw@) == Ok::<Seq<Seq<char>>, RelayListError>(texts(v@)),
            Err(e) => spec_parse_relay_urls(raw@) == Err::<Seq<Seq<char>>, RelayListError>(e),
        },
{
    let tokens = relay_list_tokens(raw);
    let ghost toks = list_tokens(split_list(raw@));
    let mut relays: Vec<String> = Vec::new();
    for i in 0..tokens.len()
        invariant
            texts(tokens@) == toks,
            toks == list_tokens(split_list(raw@)),
            relays@.len() == i,
            forall|k: int| 0 <= k < i ==> relay_url_text(spec_normalize_relay_url(toks[k])) == Some(#[trigger] relays@[k]@),
    {
        assert(texts(tokens@)[i as int] == tokens@[i as int]@);
        let normalized = normalize_relay_url(tokens[i].as_str());
        match parse_relay_url(normalized.as_str()) {
            Some(url) => relays.push(url),
            None => {
                assert(relay_url_text(spec_normalize_relay_url(toks[i as int])) is None);
                return Err(RelayListError::InvalidUrl);
            },
        }
    }
    assert(toks.len() == relays@.len());
    assert forall|k: int| 0 <= k < toks.len() implies (#[trigger] relay_url_text(spec_normalize_relay_url(toks[k]))) is Some by {
        assert(relay_url_text(spec_normalize_relay_url(toks[k])) == Some(relays@[k]@));
    }
    if relays.len() == 0 {
        return Err(RelayListError::Empty);
    }
    assert(texts(relays@) =~= parsed_urls(toks));
    let ghost all = texts(relays@);
    let mut deduped: Vec<String> = Vec::new();
    assert(all.take(0) =~= Seq::<Seq<char>>::empty());
    for i in 0..relays.len()
        invariant
            all == texts(relays@),
            texts(deduped@) == dedup(all.take(i as int)),
    {
        assert(all.take(i + 1).drop_last() =~= all.take(i as int));
        assert(all.take(i + 1).last() == relays@[i as int]@);
        let ghost before = deduped@;
        if !holds_text(&deduped, &relays[i]) {
            deduped.push(relays[i].clone());
            assert(texts(deduped@) =~= texts(before).push(relays@[i as int]@));
        }
    }
    assert(all.take(relays.len() as int) =~= all);
    Ok(deduped)
}

/// A relay's URL text and how long its ping took, in nanoseconds.
pub type ProbeView = (Seq<char>, u128);

/// The abstract value of a list of probe results.
pub open spec fn probe_texts(v: Seq<(String, u128)>) -> Seq<ProbeView> {
    v.map_values(|p: (String, u128)| (p.0@, p.1))
}

/// Whether probe `a` ranks strictly before probe `b`: a shorter ping, or the
/// same ping and a URL that sorts first.
pub open spec fn probe_before(a: ProbeView, b: ProbeView) -> bool {
    a.1 < b.1 || (a.1 == b.1 && text_lt(a.0, b.0))
}

/// `s` with `x` inserted after every element that does not rank after it.
pub open spec fn insert_probe(s: Seq<ProbeView>, x: ProbeView) -> Seq<ProbeView>
    decreases s.len(),
{
    if s.len() == 0 {
        seq![x]
    } else if probe_before(x, s[0]) {
        seq![x] + s
    } else {
        seq![s[0]] + insert_probe(s.drop_first(), x)
    }
}

/// `s` in rank order, equal-ranked probes in the order given: what a
/// stable sort by (ping, URL) gives.
pub open spec fn sort_probes(s: Seq<ProbeView>) -> Seq<ProbeView>
    decreases s.len(),
{
    if s.len() == 0 {
        s
    } else {
        insert_probe(sort_probes(s.drop_last()), s.last())
    }
}

/// Inserting at the first position that ranks after `x` is `insert_probe`.
proof fn lemma_insert_probe_at(s: Seq<ProbeView>, x: ProbeView, pos: int)
    requires
        0 <= pos <= s.len(),
        forall|k: int| 0 <= k < pos ==> !probe_before(x, #[trigger] s[k]),
        pos < s.len() ==> probe_before(x, s[pos]),
    ensures
        insert_probe(s, x) == s.insert(pos, x),
    decreases s.len(),
{
    if s.len() == 0 {
        assert(s.insert(pos, x) =~= seq![x]);
    } else if pos == 0 {
        assert(s.insert(0, x) =~= seq![x] + s);
    } else {
        let t = s.drop_first();
        assert forall|k: int| 0 <= k < pos - 1 implies !probe_before(x, #[trigger] t[k]) by {
            assert(t[k] == s[k + 1]);
        }
        if pos < s.len() {
            assert(t[pos - 1] == s[pos]);
        }
        lemma_insert_probe_at(t, x, pos - 1);
        assert(seq![s[0]] + t.insert(pos - 1, x) =~= s.insert(pos, x));
    }
}

/// Whether probes `s` are in rank order: no probe ranks before an earlier one.
pub open spec fn probes_ranked(s: Seq<ProbeView>) -> bool {
    forall|i: int, j: int| 0 <= i < j < s.len() ==> !probe_before(#[trigger] s[j], #[trigger] s[i])
}

proof fn lemma_probe_before_transitive(a: ProbeView, b: ProbeView, c: ProbeView)
    requires
        probe_before(a, b),
        probe_before(b, c),
    ensures
        probe_before(a, c),
{
    if a.1 == b.1 && b.1 == c.1 {
        lemma_text_lt_transitive(a.0, b.0, c.0);
    }
}

/// `insert_probe` puts `x` somewhere in `s` and keeps the rest in order.
proof fn lemma_insert_probe_inserts(s: Seq<ProbeView>, x: ProbeView) -> (pos: int)
    ensures
        0 <= pos <= s.len(),
        insert_probe(s, x) == s.insert(pos, x),
    decreases s.len(),
{
    if s.len() == 0 {
        assert(s.insert(0, x) =~= seq![x]);
        0
    } else if probe_before(x, s[0]) {
        assert(s.insert(0, x) =~= seq![x] + s);
        0
    } else {
        let p = lemma_insert_probe_inserts(s.drop_first(), x);
        assert(seq![s[0]] + s.drop_first().insert(p, x) =~= s.insert(p + 1, x));
        p + 1
    }
}

/// Inserting into probes in rank order keeps them in rank order.
proof fn lemma_insert_probe_ranked(s: Seq<ProbeView>, x: ProbeView)
    requires
        probes_ranked(s),
    ensures
        probes_ranked(insert_probe(s, x)),
    decreases s.len(),
{
    if s.len() == 0 {
    } else if probe_before(x, s[0]) {
        let r = seq![x] + s;
        assert forall|i: int, j: int| 0 <= i < j < r.len() implies !probe_before(#[trigger] r[j], #[trigger] r[i]) by {
            if i == 0 {
                assert(r[j] == s[j - 1]);
                if j - 1 > 0 {
                    assert(!probe_before(s[j - 1], s[0]));
                } else {
                    lemma_text_lt_irreflexive(s[0].0);
                }
                if probe_before(s[j - 1], x) {
                    lemma_probe_before_transitive(s[j - 1], x, s[0]);
                }
            } else {
                assert(r[i] == s[i - 1] && r[j] == s[j - 1]);
            }
        }
    } else {
        let t = s.drop_first();
        assert forall|i: int, j: int| 0 <= i < j < t.len() implies !probe_before(#[trigger] t[j], #[trigger] t[i]) by {
            assert(t[i] == s[i + 1] && t[j] == s[j + 1]);
        }
        lemma_insert_probe_ranked(t, x);
        let ins = insert_probe(t, x);
        let p = lemma_insert_probe_inserts(t, x);
        let r = seq![s[0]] + ins;
        assert forall|i: int, j: int| 0 <= i < j < r.len() implies !probe_before(#[trigger] r[j], #[trigger] r[i]) by {
            if i == 0 {
                let k = j - 1;
                assert(r[j] == ins[k]);
                if k < p {
                    assert(ins[k] == t[k]);
                    assert(t[k] == s[k + 1]);
                } else if k > p {
                    assert(ins[k] == t[k - 1]);
                    assert(t[k - 1] == s[k]);
                }
            } else {
                assert(r[i] == ins[i - 1] && r[j] == ins[j - 1]);
            }
        }
    }
}

/// The rank order of probes holds the same probes, in rank order: the relays
/// tried first are the fastest to answer.
pub proof fn lemma_sort_probes(s: Seq<ProbeView>)
    ensures
        sort_probes(s).to_multiset() == s.to_multiset(),
        probes_ranked(sort_probes(s)),
    decreases s.len(),
{
    broadcast use vstd::seq_lib::group_to_multiset_ensures;
    if s.len() > 0 {
        let rest = s.drop_last();
        lemma_sort_probes(rest);
        let sorted = sort_probes(rest);
        let p = lemma_insert_probe_inserts(sorted, s.last());
        lemma_insert_probe_ranked(sorted, s.last());
        assert(rest.push(s.last()) =~= s);
    } else {
        assert(sort_probes(s) == s);
    }
}

/// Whether `s` is ordered by measured ping: each probe's latency is at most
/// that of every later probe, and probes with equal latency come in URL order.
pub open spec fn ordered_by_latency(s: Seq<ProbeView>) -> bool {
    forall|i: int, j: int|
        #![trigger s[i], s[j]]
        0 <= i < j < s.len() ==> s[i].1 <= s[j].1 && (s[i].1 == s[j].1 ==> !text_lt(s[j].0, s[i].0))
}

/// Ranking keeps every probe and orders them by the latencies themselves: a
/// probe with a shorter ping always comes before one with a longer ping.
pub proof fn lemma_ranking_by_latency(s: Seq<ProbeView>)
    ensures
        sort_probes(s).to_multiset() == s.to_multiset(),
        ordered_by_latency(sort_probes(s)),
        forall|i: int, j: int|
            0 <= i < sort_probes(s).len() && 0 <= j < sort_probes(s).len() && #[trigger] sort_probes(s)[i].1
                < #[trigger] sort_probes(s)[j].1 ==> i < j,
{
    lemma_sort_probes(s);
    let r = sort_probes(s);
    assert forall|i: int, j: int| #![trigger r[i], r[j]] 0 <= i < j < r.len() implies r[i].1 <= r[j].1 && (r[i].1
        == r[j].1 ==> !text_lt(r[j].0, r[i].0)) by {
        assert(!probe_before(r[j], r[i]));
    }
    assert forall|i: int, j: int|
        0 <= i < r.len() && 0 <= j < r.len() && #[trigger] r[i].1 < #[trigger] r[j].1 implies i < j by {
        if j < i {
            assert(!probe_before(r[i], r[j]));
        }
    }
}

/// Whether probe `a` ranks strictly before probe `b`.
fn probe_ranks_before(a: &(String, u128), b: &(String, u128)) -> (r: bool)
    ensures
        r == probe_before((a.0@, a.1), (b.0@, b.1)),
{
    if a.1 < b.1 {
        true
    } else if a.1 == b.1 {
        text_less(a.0.as_str(), b.0.as_str())
    } else {
        false
    }
}

/// The probes in rank order (see [`sort_probes`]).
pub fn sort_probe_results(probes: &Vec<(String, u128)>) -> (r: Vec<(String, u128)>)
    ensures
        probe_texts(r@) == sort_probes(probe_texts(probes@)),
{
    let ghost all = probe_texts(probes@);
    let mut sorted: Vec<(String, u128)> = Vec::new();
    assert(all.take(0) =~= Seq::<ProbeView>::empty());
    for i in 0..probes.len()
        invariant
            all == probe_texts(probes@),
            probe_texts(sorted@) == sort_probes(all.take(i as int)),
    {
        assert(all.take(i + 1).drop_last() =~= all.take(i as int));
        assert(all.take(i + 1).last() == all[i as int]);
        let x = (probes[i].0.clone(), probes[i].1);
        let ghost xv = (x.0@, x.1);
        assert(xv == all[i as int]);
        let ghost cur = probe_texts(sorted@);
        let mut pos: usize = 0;
        while pos < sorted.len() && !probe_ranks_before(&x, &sorted[pos])
            invariant
                cur == probe_texts(sorted@),
                xv == (x.0@, x.1),
                pos <= sorted.len(),
                forall|k: int| 0 <= k < pos ==> !probe_before(xv, #[trigger] cur[k]),
            decreases sorted.len() - pos,
        {
            assert(cur[pos as int] == (sorted@[pos as int].0@, sorted@[pos as int].1));
            pos = pos + 1;
        }
        proof {
            if pos < sorted.len() {
                assert(cur[pos as int] == (sorted@[pos as int].0@, sorted@[pos as int].1));
            }
            lemma_insert_probe_at(cur, xv, pos as int);
        }
        sorted.insert(pos, x);
        assert(probe_texts(sorted@) =~= cur.insert(pos as int, xv));
    }
    assert(all.take(probes.len() as int) =~= all);
    sorted
}

/// `selected` extended, in order, with the candidates it does not hold yet,
/// until it holds `max` relays or the candidates run out.
pub open spec fn fill(selected: Seq<Seq<char>>, candidates: Seq<Seq<char>>, max: nat) -> Seq<Seq<char>>
    decreases candidates.len(),
{
    if selected.len() >= max || candidates.len() == 0 {
        selected
    } else if selected.contains(candidates[0]) {
        fill(selected, candidates.drop_first(), max)
    } else {
        fill(selected.push(candidates[0]), candidates.drop_first(), max)
    }
}

/// Extends `selected` as [`fill`] says.
fn fill_selection(selected: &mut Vec<String>, candidates: &Vec<String>, max: usize)
    ensures
        texts(final(selected)@) == fill(texts(old(selected)@), texts(candidates@), max as nat),
{
    let ghost goal = fill(texts(selected@), texts(candidates@), max as nat);
    let ghost cands = texts(candidates@);
    assert(cands.skip(0) =~= cands);
    let mut j: usize = 0;
    while j < candidates.len()
        invariant
            cands == texts(candidates@),
            j <= candidates.len(),
            goal == fill(texts(selected@), cands.skip(j as int), max as nat),
            goal == fill(texts(old(selected)@), cands, max as nat),
        decreases candidates.len() - j,
    {
        if selected.len() >= max {
            assert(texts(selected@).len() == selected@.len());
            return;
        }
        let ghost rest = cands.skip(j as int);
        assert(rest[0] == candidates@[j as int]@);
        assert(rest.drop_first() =~= cands.skip(j + 1));
        let ghost before = selected@;
        if !holds_text(selected, &candidates[j]) {
            selected.push(candidates[j].clone());
            assert(texts(selected@) =~= texts(before).push(candidates@[j as int]@));
        }
        j = j + 1;
    }
    assert(cands.skip(j as int) =~= Seq::<Seq<char>>::empty());
}

/// Whether a relay list of `count` entries is long enough to be probed.
pub fn should_probe_relays(count: usize, max_relays: usize) -> (r: bool)
    ensures
        r == (count > max_relays),
{
    count > max_relays
}

/// The first `max_relays` relays of the list: the shortlist when the relays
/// cannot be probed.
pub fn first_relays(relays: &Vec<String>, max_relays: usize) -> (r: Vec<String>)
    ensures
        texts(r@) == texts(relays@).take(if relays@.len() < max_relays { relays@.len() as int } else { max_relays as int }),
{
    let n = if relays.len() < max_relays { relays.len() } else { max_relays };
    let mut r: Vec<String> = Vec::new();
    for i in 0..n
        invariant
            n <= relays@.len(),
            texts(r@) == texts(relays@).take(i as int),
    {
        let ghost before = r@;
        r.push(relays[i].clone());
        assert(texts(r@) =~= texts(before).push(relays@[i as int]@));
        assert(texts(relays@).take(i + 1) =~= texts(relays@).take(i as int).push(relays@[i as int]@));
    }
    r
}

/// The URLs of probes.
pub open spec fn probe_urls(s: Seq<ProbeView>) -> Seq<Seq<char>> {
    s.map_values(|p: ProbeView| p.0)
}

/// Relays whose probe failed, as probes with no latency (so they rank by URL).
pub open spec fn unranked(urls: Seq<Seq<char>>) -> Seq<ProbeView> {
    urls.map_values(|u: Seq<char>| (u, 0u128))
}

/// The startup shortlist of at most `max` relays: the relays whose ping
/// succeeded, fastest first (ties by URL); then, while there is room, the relays
/// whose ping failed, by URL; then the remaining relays of the list, in list order.
pub open spec fn spec_shortlist(
    relays: Seq<Seq<char>>,
    successful: Seq<ProbeView>,
    failed: Seq<Seq<char>>,
    max: nat,
) -> Seq<Seq<char>> {
    let ranked = sort_probes(successful);
    let best = probe_urls(ranked).take(if ranked.len() < max { ranked.len() as int } else { max as int });
    let by_url = probe_urls(sort_probes(unranked(failed)));
    fill(fill(best, by_url, max), relays, max)
}

/// Chooses the startup shortlist from probe results (see [`spec_shortlist`]):
/// `successful` holds the relays whose ping succeeded, with its latency in
/// nanoseconds, and `failed` those whose ping failed, both in any order.
pub fn shortlist_relays(
    relays: &Vec<String>,
    successful: &Vec<(String, u128)>,
    failed: &Vec<String>,
    max_relays: usize,
) -> (r: Vec<String>)
    ensures
        texts(r@) == spec_shortlist(texts(relays@), probe_texts(successful@), texts(failed@), max_relays as nat),
{
    let ranked = sort_probe_results(successful);
    let n = if ranked.len() < max_relays { ranked.len() } else { max_relays };
    let mut selected: Vec<String> = Vec::new();
    for i in 0..n
        invariant
            n <= ranked@.len(),
            texts(selected@) == probe_urls(probe_texts(ranked@)).take(i as int),
    {
        let ghost before = selected@;
        selected.push(ranked[i].0.clone());
        assert(texts(selected@) =~= texts(before).push(ranked@[i as int].0@));
        assert(probe_urls(probe_texts(ranked@)).take(i + 1) =~= probe_urls(probe_texts(ranked@)).take(i as int).push(ranked@[i as int].0@));
    }
    let mut failed_probes: Vec<(String, u128)> = Vec::new();
    for i in 0..failed.len()
        invariant
            probe_texts(failed_probes@) == unranked(texts(failed@)).take(i as int),
    {
        let ghost before = failed_probes@;
        failed_probes.push((failed[i].clone(), 0u128));
        assert(probe_texts(failed_probes@) =~= probe_texts(before).push((failed@[i as int]@, 0u128)));
        assert(unranked(texts(failed@)).take(i + 1) =~= unranked(texts(failed@)).take(i as int).push((failed@[i as int]@, 0u128)));
    }
    assert(unranked(texts(failed@)).take(failed.len() as int) =~= unranked(texts(failed@)));
    let failed_ranked = sort_probe_results(&failed_probes);
    let mut failed_urls: Vec<String> = Vec::new();
    for i in 0..failed_ranked.len()
        invariant
            texts(failed_urls@) == probe_urls(probe_texts(failed_ranked@)).take(i as int),
    {
        let ghost before = failed_urls@;
        failed_urls.push(failed_ranked[i].0.clone());
        assert(texts(failed_urls@) =~= texts(before).push(failed_ranked@[i as int].0@));
        assert(probe_urls(probe_texts(failed_ranked@)).take(i + 1) =~= probe_urls(probe_texts(failed_ranked@)).take(i as int).push(failed_ranked@[i as int].0@));
    }
    assert(probe_urls(probe_texts(failed_ranked@)).take(failed_ranked.len() as int) =~= probe_urls(probe_texts(failed_ranked@)));
    fill_selection(&mut selected, &failed_urls, max_relays);
    fill_selection(&mut selected, relays, max_relays);
    selected
}

/// Where a relay list came from.
#[derive(Clone, Copy, Debug, PartialEq, Eq, Structural)]
pub enum RelaySource {
    /// `IROH_GATEWAY_RELAY_URLS` at run time.
    Environment,
    /// `BUILD_IROH_GATEWAY_RELAY_URLS`, fixed when the gateway was built.
    Build,
}

/// Which configured relay list the gateway uses, and the lists it rejected.
#[derive(Debug)]
pub struct RelayChoice {
    /// The first list that parses, with its relays; `None` means the default relays.
    pub chosen: Option<(RelaySource, Vec<String>)>,
    /// The lists looked at before it that did not parse, with why.
    pub rejected: Vec<(RelaySource, RelayListError)>,
}

/// The relay list in use: the run-time list if it is given and parses, else
/// the build-time list if it is given and parses, else none (default relays).
pub open spec fn spec_chosen_relays(runtime: Option<Seq<char>>, build_time: Option<Seq<char>>) -> Option<(RelaySource, Seq<Seq<char>>)> {
    match runtime {
        Some(text) if spec_parse_relay_urls(text) is Ok => Some((RelaySource::Environment, spec_parse_relay_urls(text)->Ok_0)),
        _ => match build_time {
            Some(text) if spec_parse_relay_urls(text) is Ok => Some((RelaySource::Build, spec_parse_relay_urls(text)->Ok_0)),
            _ => None,
        },
    }
}

/// The lists given that were looked at and did not parse, with why.
pub open spec fn spec_rejected_relays(runtime: Option<Seq<char>>, build_time: Option<Seq<char>>) -> Seq<(RelaySource, RelayListError)> {
    let first = match runtime {
        Some(text) => match spec_parse_relay_urls(text) {
            Err(e) => seq![(RelaySource::Environment, e)],
            Ok(_) => Seq::empty(),
        },
        None => Seq::empty(),
    };
    let runtime_used = match runtime {
        Some(text) => spec_parse_relay_urls(text) is Ok,
        None => false,
    };
    let second = if runtime_used {
        Seq::empty()
    } else {
        match build_time {
            Some(text) => match spec_parse_relay_urls(text) {
                Err(e) => seq![(RelaySource::Build, e)],
                Ok(_) => Seq::empty(),
            },
            None => Seq::empty(),
        }
    };
    first + second
}

/// The text of an optional string.
pub open spec fn opt_str(s: Option<&str>) -> Option<Seq<char>> {
    match s {
        Some(t) => Some(t@),
        None => None,
    }
}

/// Chooses the relay list from the run-time and build-time settings.
pub fn choose_relay_list(runtime: Option<&str>, build_time: Option<&str>) -> (r: RelayChoice)
    ensures
        match r.chosen {
            Some((source, relays)) => spec_chosen_relays(opt_str(runtime), opt_str(build_time)) == Some((source, texts(relays@))),
            None => spec_chosen_relays(opt_str(runtime), opt_str(build_time)) is None,
        },
        r.rejected@ == spec_rejected_relays(opt_str(runtime), opt_str(build_time)),
{
    let mut rejected: Vec<(RelaySource, RelayListError)> = Vec::new();
    if let Some(text) = runtime {
        match parse_relay_urls(text) {
            Ok(relays) => {
                assert(rejected@ =~= spec_rejected_relays(opt_str(runtime), opt_str(build_time)));
                return RelayChoice { chosen: Some((RelaySource::Environment, relays)), rejected };
            },
            Err(e) => rejected.push((RelaySource::Environment, e)),
        }
    }
    if let Some(text) = build_time {
        match parse_relay_urls(text) {
            Ok(relays) => {
                assert(rejected@ =~= spec_rejected_relays(opt_str(runtime), opt_str(build_time)));
                return RelayChoice { chosen: Some((RelaySource::Build, relays)), rejected };
            },
            Err(e) => rejected.push((RelaySource::Build, e)),
        }
    }
    assert(rejected@ =~= spec_rejected_relays(opt_str(runtime), opt_str(build_time)));
    RelayChoice { chosen: None, rejected }
}

/// `s` without its trailing dots, as `str::trim_end_matches('.')` gives it.
pub open spec fn trim_trailing_dots(s: Seq<char>) -> Seq<char>
    decreases s.len(),
{
    if s.len() > 0 && s.last() == '.' {
        trim_trailing_dots(s.drop_last())
    } else {
        s
    }
}

/// Why a relay cannot be probed.
#[derive(Clone, Copy, Debug, PartialEq, Eq, Structural)]
pub enum ProbeError {
    /// The relay URL has no host.
    MissingHost,
}

/// The URL that probes a relay whose URL has host `host`: its `/ping` over
/// HTTPS, without the trailing dots of a fully qualified host name.
pub open spec fn spec_ping_url(host: Seq<char>) -> Seq<char> {
    "https://"@ + trim_trailing_dots(host) + "/ping"@
}

/// The probe URL for a relay whose URL has host `host`, if it has one.
pub fn relay_ping_url(host: Option<&str>) -> (r: Result<String, ProbeError>)
    ensures
        match host {
            Some(h) => r matches Ok(url) && url@ == spec_ping_url(h@),
            None => r == Err::<String, ProbeError>(ProbeError::MissingHost),
        },
{
    let host = match host {
        Some(h) => h,
        None => return Err(ProbeError::MissingHost),
    };
    let chars = chars_of(host);
    let mut end = chars.len();
    assert(host@.subrange(0, chars@.len() as int) =~= host@);
    while end > 0 && chars[end - 1] == '.'
        invariant
            chars@ == host@,
            end <= chars@.len(),
            trim_trailing_dots(host@) == trim_trailing_dots(host@.subrange(0, end as int)),
        decreases end,
    {
        proof {
            let t = host@.subrange(0, end as int);
            assert(t.drop_last() =~= host@.subrange(0, end - 1));
        }
        end = end - 1;
    }
    let mut url = "https://".to_owned();
    url.append(host.substring_char(0, end));
    url.append("/ping");
    Ok(url)
}

/// The host of the URL that `text` denotes, if it denotes a URL with a host
/// (`url::Url::host_str` of the parsed URL).
pub uninterp spec fn relay_host_of(text: Seq<char>) -> Option<Seq<char>>;

/// The host of a relay URL, through `reqwest::Url::parse` (the `url` crate's
/// `Url`, which `RelayUrl` dereferences to) and `Url::host_str`.
///
/// Trusted: the result is `relay_host_of` of the text; text that does not parse
/// has no host.
#[verifier::external_body]
fn relay_host(relay: &str) -> (r: Option<String>)
    ensures
        opt_text(r) == relay_host_of(relay@),
{
    match reqwest::Url::parse(relay) {
        Ok(url) => url.host_str().map(str::to_owned),
        Err(_) => None,
    }
}

/// The URL that probes relay `relay`: `/ping` over HTTPS on the relay's host,
/// without the trailing dots of a fully qualified host name; or why there is none.
pub fn relay_probe_url(relay: &str) -> (r: Result<String, ProbeError>)
    ensures
        match relay_host_of(relay@) {
            Some(h) => r matches Ok(url) && url@ == spec_ping_url(h),
            None => r == Err::<String, ProbeError>(ProbeError::MissingHost),
        },
{
    let host = relay_host(relay);
    match &host {
        Some(h) => relay_ping_url(Some(h.as_str())),
        None => relay_ping_url(None),
    }
}

/// Whether a ping answered with HTTP status `status` succeeded (`200..=299`).
pub fn ping_succeeded(status: u16) -> (r: bool)
    ensures
        r == (200 <= status < 300),
{
    200 <= status && status < 300
}

/// A normalized relay entry names a scheme, and normalizing it again changes
/// nothing.
pub proof fn lemma_normalize_relay_url(raw: Seq<char>)
    ensures
        has_scheme_separator(spec_normalize_relay_url(raw)),
        spec_normalize_relay_url(spec_normalize_relay_url(raw)) == spec_normalize_relay_url(raw),
{
    if !has_scheme_separator(raw) {
        reveal_strlit("https://");
        let n = "https://"@ + raw;
        assert(n[5] == ':' && n[6] == '/' && n[7] == '/');
    }
}

/// Dropping repeats leaves each element once, and no other elements.
pub proof fn lemma_dedup(s: Seq<Seq<char>>)
    ensures
        dedup(s).no_duplicates(),
        forall|x: Seq<char>| #[trigger] dedup(s).contains(x) <==> s.contains(x),
    decreases s.len(),
{
    if s.len() > 0 {
        let rest = s.drop_last();
        lemma_dedup(rest);
        let d = dedup(rest);
        assert forall|x: Seq<char>| s.contains(x) <==> (rest.contains(x) || x == s.last()) by {
            if s.contains(x) {
                let i = choose|i: int| 0 <= i < s.len() && s[i] == x;
                if i < s.len() - 1 {
                    assert(rest[i] == x);
                }
            }
            if rest.contains(x) {
                let i = choose|i: int| 0 <= i < rest.len() && rest[i] == x;
                assert(s[i] == x);
            }
            if x == s.last() {
                assert(s[s.len() - 1] == x);
            }
        }
        if !d.contains(s.last()) {
            let r = d.push(s.last());
            assert forall|x: Seq<char>| #[trigger] r.contains(x) <==> (d.contains(x) || x == s.last()) by {
                if r.contains(x) {
                    let i = choose|i: int| 0 <= i < r.len() && r[i] == x;
                    if i < d.len() {
                        assert(d[i] == x);
                    }
                }
                if d.contains(x) {
                    let i = choose|i: int| 0 <= i < d.len() && d[i] == x;
                    assert(r[i] == x);
                }
                if x == s.last() {
                    assert(r[r.len() - 1] == x);
                }
            }
            assert forall|i: int, j: int| 0 <= i < r.len() && 0 <= j < r.len() && i != j implies r[i] != r[j] by {
                if i < d.len() && j < d.len() {
                } else if i < d.len() {
                    assert(d.contains(r[i]));
                } else {
                    assert(d.contains(r[j]));
                }
            }
        }
    }
}

/// A list splits into at least one piece.
proof fn lemma_split_nonempty(s: Seq<char>)
    ensures
        split_list(s).len() >= 1,
    decreases s.len(),
{
    if s.len() > 0 {
        lemma_split_nonempty(s.drop_last());
    }
}

/// How a list splits depends only on where its separators stand, not on which
/// separators they are.
proof fn lemma_split_same_pattern(s: Seq<char>, t: Seq<char>)
    requires
        s.len() == t.len(),
        forall|j: int|
            #![trigger s[j]]
            0 <= j < s.len() ==> is_list_separator(s[j]) == is_list_separator(t[j]) && (!is_list_separator(s[j])
                ==> s[j] == t[j]),
    ensures
        split_list(s) == split_list(t),
    decreases s.len(),
{
    if s.len() > 0 {
        let n = s.len() - 1;
        assert forall|j: int| #![trigger s.drop_last()[j]] 0 <= j < n implies is_list_separator(s.drop_last()[j])
            == is_list_separator(t.drop_last()[j]) && (!is_list_separator(s.drop_last()[j]) ==> s.drop_last()[j]
            == t.drop_last()[j]) by {
            assert(s.drop_last()[j] == s[j] && t.drop_last()[j] == t[j]);
        }
        lemma_split_same_pattern(s.drop_last(), t.drop_last());
        assert(s[n] == s.last() && t[n] == t.last());
    }
}

/// Splitting `a + b` joins the last piece of `a` to the first piece of `b`.
proof fn lemma_split_concat(a: Seq<char>, b: Seq<char>)
    ensures
        split_list(a + b) == split_list(a).drop_last().push(split_list(a).last() + split_list(b)[0]) + split_list(
            b,
        ).drop_first(),
    decreases b.len(),
{
    let p = split_list(a);
    lemma_split_nonempty(a);
    if b.len() == 0 {
        assert(a + b =~= a);
        assert(p.last() + Seq::<char>::empty() =~= p.last());
        assert(p.drop_last().push(p.last()) =~= p);
        assert(split_list(b).drop_first() =~= Seq::<Seq<char>>::empty());
        assert(p.drop_last().push(p.last() + split_list(b)[0]) + split_list(b).drop_first() =~= p);
    } else {
        let b1 = b.drop_last();
        let ch = b.last();
        lemma_split_concat(a, b1);
        lemma_split_nonempty(b1);
        assert((a + b).drop_last() =~= a + b1);
        assert((a + b).last() == ch);
        let q1 = split_list(b1);
        let x = split_list(a + b1);
        assert(x == p.drop_last().push(p.last() + q1[0]) + q1.drop_first());
        let q = split_list(b);
        if is_list_separator(ch) {
            assert(q == q1.push(Seq::empty()));
            assert(q[0] == q1[0]);
            assert(q.drop_first() =~= q1.drop_first().push(Seq::empty()));
            assert(split_list(a + b) == x.push(Seq::empty()));
            assert(x.push(Seq::empty()) =~= p.drop_last().push(p.last() + q[0]) + q.drop_first());
        } else {
            assert(q == q1.update(q1.len() - 1, q1.last().push(ch)));
            assert(split_list(a + b) == x.update(x.len() - 1, x.last().push(ch)));
            if q1.len() == 1 {
                assert(q[0] == q1[0].push(ch));
                assert((p.last() + q1[0]).push(ch) =~= p.last() + q1[0].push(ch));
                assert(q.drop_first() =~= Seq::<Seq<char>>::empty());
                assert(q1.drop_first() =~= Seq::<Seq<char>>::empty());
                assert(x.update(x.len() - 1, x.last().push(ch)) =~= p.drop_last().push(p.last() + q[0])
                    + q.drop_first());
            } else {
                assert(q[0] == q1[0]);
                assert(x.last() == q1.last());
                assert(q.drop_first() =~= q1.drop_first().update(q1.len() - 2, q1.last().push(ch)));
                assert(x.update(x.len() - 1, x.last().push(ch)) =~= p.drop_last().push(p.last() + q[0])
                    + q.drop_first());
            }
        }
    }
}

/// The entries of pieces laid end to end are those of each part, in order.
proof fn lemma_tokens_concat(x: Seq<Seq<char>>, y: Seq<Seq<char>>)
    ensures
        list_tokens(x + y) == list_tokens(x) + list_tokens(y),
    decreases y.len(),
{
    if y.len() == 0 {
        assert(x + y =~= x);
        assert(list_tokens(x) + list_tokens(y) =~= list_tokens(x));
    } else {
        lemma_tokens_concat(x, y.drop_last());
        assert((x + y).drop_last() =~= x + y.drop_last());
        assert((x + y).last() == y.last());
        if trim(y.last()).len() == 0 {
        } else {
            assert(list_tokens(x) + list_tokens(y.drop_last()).push(trim(y.last())) =~= (list_tokens(x)
                + list_tokens(y.drop_last())).push(trim(y.last())));
        }
    }
}

/// An empty piece holds no entry.
proof fn lemma_tokens_empty_piece()
    ensures
        list_tokens(seq![Seq::<char>::empty()]) == Seq::<Seq<char>>::empty(),
{
    let e = seq![Seq::<char>::empty()];
    assert(e.drop_last() =~= Seq::<Seq<char>>::empty());
    assert(e.last() == Seq::<char>::empty());
    assert(trim_start(Seq::<char>::empty()) == Seq::<char>::empty());
    assert(trim_end(Seq::<char>::empty()) == Seq::<char>::empty());
    assert(trim(e.last()).len() == 0);
    assert(list_tokens(e) == list_tokens(e.drop_last()));
}

/// Putting a separator where a piece already ends (at the start, or just after
/// a separator) adds only an empty piece.
proof fn lemma_extra_separator_after(raw: Seq<char>, i: int, c: char)
    requires
        0 <= i <= raw.len(),
        is_list_separator(c),
        i == 0 || is_list_separator(raw[i - 1]),
    ensures
        list_tokens(split_list(raw.insert(i, c))) == list_tokens(split_list(raw)),
{
    let a = raw.take(i);
    let b = raw.skip(i);
    assert(raw =~= a + b);
    assert(raw.insert(i, c) =~= a.push(c) + b);
    let p = split_list(a);
    lemma_split_nonempty(a);
    lemma_split_nonempty(b);
    if i > 0 {
        assert(a.last() == raw[i - 1]);
        assert(p == split_list(a.drop_last()).push(Seq::empty()));
    }
    assert(p.last() =~= Seq::<char>::empty());
    assert(a.push(c).drop_last() =~= a);
    assert(split_list(a.push(c)) == p.push(Seq::empty()));
    lemma_split_concat(a, b);
    lemma_split_concat(a.push(c), b);
    let q = split_list(b);
    let l = p.drop_last();
    assert(Seq::<char>::empty() + q[0] =~= q[0]);
    assert(seq![q[0]] + q.drop_first() =~= q);
    assert(split_list(raw) =~= l + q);
    assert(p.push(Seq::empty()).drop_last() =~= p);
    assert(p =~= l + seq![Seq::<char>::empty()]);
    assert(split_list(raw.insert(i, c)) =~= (l + seq![Seq::<char>::empty()]) + q);
    lemma_tokens_concat(l + seq![Seq::<char>::empty()], q);
    lemma_tokens_concat(l, seq![Seq::<char>::empty()]);
    lemma_tokens_concat(l, q);
    lemma_tokens_empty_piece();
    assert(list_tokens(l) + Seq::<Seq<char>>::empty() =~= list_tokens(l));
}

/// Replacing a separator of a relay list by another separator leaves what the
/// list parses to unchanged.
pub proof fn lemma_relay_list_separator_swap(raw: Seq<char>, i: int, c: char)
    requires
        0 <= i < raw.len(),
        is_list_separator(raw[i]),
        is_list_separator(c),
    ensures
        spec_parse_relay_urls(raw.update(i, c)) == spec_parse_relay_urls(raw),
{
    let t = raw.update(i, c);
    assert forall|j: int| #![trigger raw[j]] 0 <= j < raw.len() implies is_list_separator(raw[j])
        == is_list_separator(t[j]) && (!is_list_separator(raw[j]) ==> raw[j] == t[j]) by {}
    lemma_split_same_pattern(raw, t);
}

/// Adding a separator to a relay list at its start, at its end, or next to a
/// separator leaves what the list parses to unchanged.
pub proof fn lemma_relay_list_extra_separator(raw: Seq<char>, i: int, c: char)
    requires
        0 <= i <= raw.len(),
        is_list_separator(c),
        i == 0 || i == raw.len() || is_list_separator(raw[i - 1]) || is_list_separator(raw[i]),
    ensures
        spec_parse_relay_urls(raw.insert(i, c)) == spec_parse_relay_urls(raw),
{
    let t = raw.insert(i, c);
    if i == 0 || is_list_separator(raw[i - 1]) {
        lemma_extra_separator_after(raw, i, c);
    } else if i == raw.len() {
        assert(t =~= raw.push(c));
        assert(t.drop_last() =~= raw);
        let p = split_list(raw);
        assert(split_list(t) == p.push(Seq::empty()));
        assert(p.push(Seq::<char>::empty()).drop_last() =~= p);
        assert(trim(Seq::<char>::empty()) =~= Seq::<char>::empty());
    } else {
        let t2 = raw.insert(i + 1, c);
        assert forall|j: int| #![trigger t[j]] 0 <= j < t.len() implies is_list_separator(t[j])
            == is_list_separator(t2[j]) && (!is_list_separator(t[j]) ==> t[j] == t2[j]) by {
            if j < i {
                assert(t[j] == raw[j] && t2[j] == raw[j]);
            } else if j == i {
                assert(t[j] == c && t2[j] == raw[i]);
            } else if j == i + 1 {
                assert(t[j] == raw[i] && t2[j] == c);
            } else {
                assert(t[j] == raw[j - 1] && t2[j] == raw[j - 1]);
            }
        }
        lemma_split_same_pattern(t, t2);
        lemma_extra_separator_after(raw, i + 1, c);
    }
}

/// A relay list that parses names at least one relay, and each relay once.
pub proof fn lemma_parsed_relays_distinct(raw: Seq<char>)
    requires
        spec_parse_relay_urls(raw) is Ok,
    ensures
        spec_parse_relay_urls(raw)->Ok_0.len() > 0,
        spec_parse_relay_urls(raw)->Ok_0.no_duplicates(),
{
    let urls = parsed_urls(list_tokens(split_list(raw)));
    lemma_dedup(urls);
    assert(urls.contains(urls[0]));
    assert(dedup(urls).contains(urls[0]));
}

/// Filling a selection never goes past `max` and never drops what it held; it
/// stops full or with every candidate in it; it adds only candidates, and no
/// repeats.
proof fn lemma_fill(selected: Seq<Seq<char>>, candidates: Seq<Seq<char>>, max: nat)
    requires
        selected.len() <= max,
    ensures
        fill(selected, candidates, max).len() <= max,
        fill(selected, candidates, max).len() >= selected.len(),
        fill(selected, candidates, max).take(selected.len() as int) == selected,
        fill(selected, candidates, max).len() == max
            || forall|i: int| 0 <= i < candidates.len() ==> fill(selected, candidates, max).contains(#[trigger] candidates[i]),
        forall|x: Seq<char>| #[trigger] fill(selected, candidates, max).contains(x) ==> selected.contains(x) || candidates.contains(x),
        selected.no_duplicates() ==> fill(selected, candidates, max).no_duplicates(),
    decreases candidates.len(),
{
    let r = fill(selected, candidates, max);
    if selected.len() >= max || candidates.len() == 0 {
        assert(selected.take(selected.len() as int) =~= selected);
    } else {
        let c = candidates[0];
        let rest = candidates.drop_first();
        let next = if selected.contains(c) { selected } else { selected.push(c) };
        lemma_fill(next, rest, max);
        assert(r == fill(next, rest, max));
        assert(r.take(next.len() as int).take(selected.len() as int) =~= r.take(selected.len() as int));
        assert(next.take(selected.len() as int) =~= selected);
        assert forall|i: int| 0 <= i < selected.len() implies r.contains(#[trigger] selected[i]) by {
            assert(r.take(selected.len() as int)[i] == r[i]);
        }
        if r.len() != max {
            assert forall|i: int| 0 <= i < candidates.len() implies r.contains(#[trigger] candidates[i]) by {
                if i == 0 {
                    if selected.contains(c) {
                        let k = choose|k: int| 0 <= k < selected.len() && selected[k] == c;
                        assert(r.contains(selected[k]));
                    } else {
                        assert(next[selected.len() as int] == c);
                        assert(r.take(next.len() as int)[selected.len() as int] == c);
                        assert(r[selected.len() as int] == c);
                    }
                } else {
                    assert(rest[i - 1] == candidates[i]);
                }
            }
        }
        assert forall|x: Seq<char>| #[trigger] r.contains(x) implies selected.contains(x) || candidates.contains(x) by {
            if next.contains(x) && !selected.contains(x) {
                assert(x == c);
                assert(candidates[0] == x);
            }
            if rest.contains(x) {
                let k = choose|k: int| 0 <= k < rest.len() && rest[k] == x;
                assert(candidates[k + 1] == x);
            }
        }
        if selected.no_duplicates() && !selected.contains(c) {
            assert forall|i: int, j: int| 0 <= i < next.len() && 0 <= j < next.len() && i != j implies next[i] != next[j] by {
                if i == selected.len() {
                    assert(!selected.contains(next[j]) || next[j] != c);
                } else if j == selected.len() {
                    assert(!selected.contains(next[i]) || next[i] != c);
                }
            }
        }
    }
}

/// Ranking probes whose URLs are distinct gives probes whose URLs are distinct.
proof fn lemma_sort_distinct_urls(s: Seq<ProbeView>)
    ensures
        probe_urls(s).no_duplicates() ==> probe_urls(sort_probes(s)).no_duplicates(),
    decreases s.len(),
{
    broadcast use vstd::seq_lib::group_to_multiset_ensures;
    if s.len() > 0 && probe_urls(s).no_duplicates() {
        let rest = s.drop_last();
        let x = s.last();
        assert forall|i: int, j: int| 0 <= i < probe_urls(rest).len() && 0 <= j < probe_urls(rest).len() && i != j
            implies probe_urls(rest)[i] != probe_urls(rest)[j] by {
            assert(probe_urls(rest)[i] == probe_urls(s)[i] && probe_urls(rest)[j] == probe_urls(s)[j]);
        }
        lemma_sort_distinct_urls(rest);
        lemma_sort_probes(rest);
        let sorted = sort_probes(rest);
        let p = lemma_insert_probe_inserts(sorted, x);
        let r = sorted.insert(p, x);
        assert(sort_probes(s) == r);
        assert forall|k: int| 0 <= k < sorted.len() implies (#[trigger] sorted[k]).0 != x.0 by {
            assert(sorted.contains(sorted[k]));
            assert(sorted.to_multiset().count(sorted[k]) > 0);
            assert(rest.contains(sorted[k]));
            let m = choose|m: int| 0 <= m < rest.len() && rest[m] == sorted[k];
            assert(probe_urls(s)[m] == sorted[k].0);
            assert(probe_urls(s)[s.len() - 1] == x.0);
        }
        assert forall|i: int, j: int| 0 <= i < probe_urls(r).len() && 0 <= j < probe_urls(r).len() && i != j
            implies probe_urls(r)[i] != probe_urls(r)[j] by {
            let si = if i < p { i } else { i - 1 };
            let sj = if j < p { j } else { j - 1 };
            if i != p && j != p {
                assert(r[i] == sorted[si] && r[j] == sorted[sj]);
                assert(probe_urls(sorted)[si] == sorted[si].0);
                assert(probe_urls(sorted)[sj] == sorted[sj].0);
            } else if i == p {
                assert(r[j] == sorted[sj]);
            } else {
                assert(r[i] == sorted[si]);
            }
        }
    }
}

/// The startup shortlist holds at most `max` relays; it starts with the fastest
/// relays that answered the ping, fastest first; it is full, or holds every
/// relay of the list and every probed one; it holds no relay that is neither
/// listed nor probed; and it holds no repeats when the relays that answered are
/// distinct.
pub proof fn lemma_shortlist(
    relays: Seq<Seq<char>>,
    successful: Seq<ProbeView>,
    failed: Seq<Seq<char>>,
    max: nat,
)
    ensures
        ({
            let r = spec_shortlist(relays, successful, failed, max);
            let ranked = probe_urls(sort_probes(successful));
            let k = if successful.len() < max { successful.len() as int } else { max as int };
            &&& r.len() <= max
            &&& r.take(k) == ranked.take(k)
            &&& probes_ranked(sort_probes(successful))
            &&& r.len() == max || (forall|i: int| 0 <= i < relays.len() ==> r.contains(#[trigger] relays[i]))
            &&& forall|x: Seq<char>| #[trigger] r.contains(x) ==> relays.contains(x) || ranked.contains(x) || failed.contains(x)
            &&& probe_urls(successful).no_duplicates() ==> r.no_duplicates()
        }),
{
    let ranked_probes = sort_probes(successful);
    lemma_sort_probes(successful);
    broadcast use vstd::seq_lib::group_to_multiset_ensures;
    assert(ranked_probes.to_multiset().len() == successful.to_multiset().len());
    assert(ranked_probes.len() == successful.len());
    let ranked = probe_urls(ranked_probes);
    let k = if successful.len() < max { successful.len() as int } else { max as int };
    let best = ranked.take(k);
    let by_url_probes = sort_probes(unranked(failed));
    lemma_sort_probes(unranked(failed));
    let by_url = probe_urls(by_url_probes);
    lemma_fill(best, by_url, max);
    let mid = fill(best, by_url, max);
    lemma_fill(mid, relays, max);
    let r = fill(mid, relays, max);
    assert(r.take(mid.len() as int).take(k) =~= r.take(k));
    assert(mid.take(k) =~= best);
    assert forall|x: Seq<char>| #[trigger] r.contains(x) implies relays.contains(x) || ranked.contains(x) || failed.contains(x) by {
        if best.contains(x) {
            let i = choose|i: int| 0 <= i < best.len() && best[i] == x;
            assert(ranked[i] == x);
        }
        if by_url.contains(x) {
            let i = choose|i: int| 0 <= i < by_url.len() && by_url[i] == x;
            assert(by_url_probes.contains(by_url_probes[i]));
            assert(by_url_probes.to_multiset().count(by_url_probes[i]) > 0);
            assert(unranked(failed).contains(by_url_probes[i]));
            let j = choose|j: int| 0 <= j < unranked(failed).len() && unranked(failed)[j] == by_url_probes[i];
            assert(failed[j] == x);
        }
    }
    if probe_urls(successful).no_duplicates() {
        lemma_sort_distinct_urls(successful);
        assert forall|i: int, j: int| 0 <= i < best.len() && 0 <= j < best.len() && i != j implies best[i] != best[j] by {
            assert(best[i] == ranked[i] && best[j] == ranked[j]);
        }
    }
}

/// The shortlist starts with the answered relays of smallest measured
/// latency: there is an ordering of all successful probes by latency (ties by
/// URL) whose first `min(answered, max)` URLs begin the shortlist.
pub proof fn lemma_shortlist_fastest_first(
    relays: Seq<Seq<char>>,
    successful: Seq<ProbeView>,
    failed: Seq<Seq<char>>,
    max: nat,
)
    ensures
        exists|ranked: Seq<ProbeView>|
            #![trigger ordered_by_latency(ranked)]
            {
                let k = if successful.len() < max { successful.len() as int } else { max as int };
                &&& ranked.to_multiset() == successful.to_multiset()
                &&& ordered_by_latency(ranked)
                &&& spec_shortlist(relays, successful, failed, max).take(k) == probe_urls(ranked).take(k)
            },
{
    lemma_shortlist(relays, successful, failed, max);
    lemma_ranking_by_latency(successful);
    let ranked = sort_probes(successful);
    let k = if successful.len() < max { successful.len() as int } else { max as int };
    assert(spec_shortlist(relays, successful, failed, max).take(k) == probe_urls(ranked).take(k));
    assert(ordered_by_latency(ranked));
}

/// Every ASCII whitespace character (space, tab, line feed, form feed,
/// carriage return) and the semicolon separate relay-list entries just as a
/// comma does: parsing `a`, such a character, then `b` gives what parsing `a`,
/// a comma, then `b` gives.
pub proof fn lemma_relay_list_whitespace_separates(a: Seq<char>, w: char, b: Seq<char>)
    requires
        w == ' ' || w == '\t' || w == '\n' || w == '\x0C' || w == '\r' || w == ';',
    ensures
        spec_parse_relay_urls(a + seq![w] + b) == spec_parse_relay_urls(a + seq![','] + b),
{
    let s = a + seq![w] + b;
    let t = a + seq![','] + b;
    assert forall|j: int| #![trigger s[j]] 0 <= j < s.len() implies is_list_separator(s[j]) == is_list_separator(t[j])
        && (!is_list_separator(s[j]) ==> s[j] == t[j]) by {
        if j < a.len() {
            assert(s[j] == a[j] && t[j] == a[j]);
        } else if j == a.len() {
            assert(s[j] == w && t[j] == ',');
        } else {
            assert(s[j] == b[j - a.len() - 1] && t[j] == b[j - a.len() - 1]);
        }
    }
    lemma_split_same_pattern(s, t);
}

} // verus!
