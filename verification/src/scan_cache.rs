//! The result of the last scan, kept so that a deletion that follows a scan
//! within minutes need not walk the file system again.
//!
//! What is kept is an envelope: the result, the time at which it was made,
//! and a fingerprint of the request that it answers. Reading and writing the
//! envelope is left to the caller; the library makes it and decides whether
//! one that was read may be used.

use crate::cli::{option_view, string_views, ScanOptions, ScanOptionsView};
use crate::lexical::{lemma_text_order, sort_texts, text_order};
use crate::path::texts;
use crate::scanner::{file_views, CleanableFile, ScanResult, ScanResultView};
use crate::sorting::{lemma_sorted_by_forgets_order, sorted_by};
use crate::text::{append_str, decimal, push_decimal, same_text, text_of};
use vstd::prelude::*;

verus! {

/// For how many seconds a kept result may be used, unless said otherwise.
pub const CACHE_MAX_AGE_SECS: u64 = 300;

/// A text as the debugging format writes it: in quotes, with the characters
/// that need it escaped.
pub uninterp spec fn debug_text(s: Seq<char>) -> Seq<char>;

/// The debugging format of a string slice (`{:?}`): the text in double
/// quotes, with escapes for quotes, backslashes and characters that do not
/// print. The result is left unstated and only given a name.
#[verifier::external_body]
fn debug_string(s: &str) -> (r: String)
    ensures
        r@ == debug_text(s@),
{
    format!("{:?}", s)
}

/// How a flag is written.
pub open spec fn flag_text(b: bool) -> Seq<char> {
    if b {
        "true"@
    } else {
        "false"@
    }
}

/// How an optional number is written.
pub open spec fn optional_number(n: Option<u32>) -> Seq<char> {
    match n {
        Some(n) => "Some("@ + decimal(n as nat) + ")"@,
        None => "None"@,
    }
}

/// How an optional text is written.
pub open spec fn optional_text(s: Option<Seq<char>>) -> Seq<char> {
    match s {
        Some(s) => "Some("@ + debug_text(s) + ")"@,
        None => "None"@,
    }
}

/// The texts of a list as they are written between its brackets, with a
/// comma and a space between each two.
pub open spec fn listed(items: Seq<Seq<char>>) -> Seq<char>
    decreases items.len(),
{
    if items.len() == 0 {
        Seq::empty()
    } else if items.len() == 1 {
        debug_text(items[0])
    } else {
        listed(items.drop_last()) + ", "@ + debug_text(items.last())
    }
}

/// How a list of texts is written.
pub open spec fn list_text(items: Seq<Seq<char>>) -> Seq<char> {
    "["@ + listed(items) + "]"@
}

/// The path that a request names, or the empty text where it names none.
pub open spec fn target_text(o: ScanOptionsView) -> Seq<char> {
    match o.path {
        Some(p) => p,
        None => Seq::empty(),
    }
}

/// The texts one after the other.
pub open spec fn concat_all(parts: Seq<Seq<char>>) -> Seq<char>
    decreases parts.len(),
{
    if parts.len() == 0 {
        Seq::empty()
    } else {
        concat_all(parts.drop_last()) + parts.last()
    }
}

/// The parts of which the fingerprint of a request is made: for the path,
/// for each category, for each threshold, and for the exclusions in the
/// order of texts, a label and what the request says.
pub open spec fn fingerprint_parts(o: ScanOptionsView) -> Seq<Seq<char>> {
    seq![
        "path="@,
        target_text(o),
        " all="@,
        flag_text(o.all),
        " cache="@,
        flag_text(o.cache),
        " trash="@,
        flag_text(o.trash),
        " temp="@,
        flag_text(o.temp),
        " downloads="@,
        flag_text(o.downloads),
        " build="@,
        flag_text(o.build),
        " large="@,
        flag_text(o.large),
        " duplicates="@,
        flag_text(o.duplicates),
        " old="@,
        flag_text(o.old),
        " min_age="@,
        optional_number(o.min_age),
        " min_size="@,
        optional_text(o.min_size),
        " project_age="@,
        optional_number(o.project_age),
        " exclude="@,
        list_text(sorted_by(text_order(), o.exclude)),
    ]
}

/// The fingerprint of a request: a text that is the same for two requests
/// that ask for the same scan.
pub open spec fn fingerprint(o: ScanOptionsView) -> Seq<char> {
    concat_all(fingerprint_parts(o))
}

/// The first `k + 1` texts one after the other are the first `k`, then the
/// text at `k`.
pub proof fn lemma_concat_step(parts: Seq<Seq<char>>, k: int)
    requires
        0 <= k < parts.len(),
    ensures
        concat_all(parts.take(k + 1)) == concat_all(parts.take(k)) + parts[k],
{
    assert(parts.take(k + 1).drop_last() == parts.take(k));
    assert(parts.take(k + 1).last() == parts[k]);
}

fn push_flag(out: &mut Vec<char>, b: bool)
    ensures
        final(out)@ == old(out)@ + flag_text(b),
{
    if b {
        append_str(out, "true");
    } else {
        append_str(out, "false");
    }
}

fn push_optional_number(out: &mut Vec<char>, n: Option<u32>)
    ensures
        final(out)@ == old(out)@ + optional_number(n),
{
    let ghost sofar = out@;
    match n {
        Some(n) => {
            append_str(out, "Some(");
            push_decimal(out, n as u64);
            append_str(out, ")");
            assert(out@ == sofar + ("Some("@ + decimal(n as nat) + ")"@));
        },
        None => {
            append_str(out, "None");
        },
    }
}

fn push_optional_text(out: &mut Vec<char>, s: &Option<String>)
    ensures
        final(out)@ == old(out)@ + optional_text(option_view(*s)),
{
    let ghost sofar = out@;
    match s {
        Some(s) => {
            append_str(out, "Some(");
            let quoted = debug_string(s.as_str());
            append_str(out, quoted.as_str());
            append_str(out, ")");
            assert(out@ == sofar + ("Some("@ + debug_text(s@) + ")"@));
        },
        None => {
            append_str(out, "None");
        },
    }
}

fn push_list(out: &mut Vec<char>, items: &Vec<Vec<char>>)
    ensures
        final(out)@ == old(out)@ + list_text(texts(items@)),
{
    let ghost sofar = out@;
    let ghost all = texts(items@);
    append_str(out, "[");
    let mut i: usize = 0;
    assert(all.take(0) == Seq::<Seq<char>>::empty());
    assert(out@ == sofar + "["@ + listed(all.take(0)));
    while i < items.len()
        invariant
            i <= items.len(),
            all == texts(items@),
            out@ == sofar + "["@ + listed(all.take(i as int)),
        decreases items.len() - i,
    {
        proof {
            assert(all.take(i + 1).drop_last() == all.take(i as int));
            assert(all.take(i + 1).last() == items@[i as int]@);
            assert(all.take(i + 1)[0] == all[0]);
        }
        if i > 0 {
            append_str(out, ", ");
        }
        let item = text_of(&items[i]);
        let quoted = debug_string(item.as_str());
        append_str(out, quoted.as_str());
        proof {
            if i == 0 {
                assert(listed(all.take(1)) == debug_text(all[0]));
                assert(listed(all.take(0)) == Seq::<char>::empty());
                assert(out@ == sofar + "["@ + listed(all.take(i + 1)));
            } else {
                assert(out@ == sofar + "["@ + (listed(all.take(i as int)) + ", "@ + debug_text(
                    all[i as int],
                )));
            }
        }
        i += 1;
    }
    assert(all.take(items.len() as int) == all);
    append_str(out, "]");
    assert(out@ == sofar + ("["@ + listed(all) + "]"@));
}

fn push_path(out: &mut Vec<char>, options: &ScanOptions)
    requires
        old(out)@ == concat_all(fingerprint_parts(options@).take(0)),
    ensures
        final(out)@ == concat_all(fingerprint_parts(options@).take(2)),
{
    let ghost parts = fingerprint_parts(options@);
    append_str(out, "path=");
    proof {
        lemma_concat_step(parts, 0);
        assert(parts[0] == "path="@);
    }
    match &options.path {
        Some(p) => {
            append_str(out, p.as_str());
        },
        None => {
            assert(out@ + Seq::<char>::empty() == out@);
        },
    }
    proof {
        lemma_concat_step(parts, 1);
        assert(parts[1] == target_text(options@));
    }
}

fn push_flags(out: &mut Vec<char>, options: &ScanOptions)
    requires
        old(out)@ == concat_all(fingerprint_parts(options@).take(2)),
    ensures
        final(out)@ == concat_all(fingerprint_parts(options@).take(20)),
{
    let ghost parts = fingerprint_parts(options@);
    append_str(out, " all=");
    proof {
        lemma_concat_step(parts, 2);
        assert(parts[2] == " all="@);
    }
    push_flag(out, options.all);
    proof {
        lemma_concat_step(parts, 3);
        assert(parts[3] == flag_text(options.all));
    }
    append_str(out, " cache=");
    proof {
        lemma_concat_step(parts, 4);
        assert(parts[4] == " cache="@);
    }
    push_flag(out, options.cache);
    proof {
        lemma_concat_step(parts, 5);
        assert(parts[5] == flag_text(options.cache));
    }
    append_str(out, " trash=");
    proof {
        lemma_concat_step(parts, 6);
        assert(parts[6] == " trash="@);
    }
    push_flag(out, options.trash);
    proof {
        lemma_concat_step(parts, 7);
        assert(parts[7] == flag_text(options.trash));
    }
    append_str(out, " temp=");
    proof {
        lemma_concat_step(parts, 8);
        assert(parts[8] == " temp="@);
    }
    push_flag(out, options.temp);
    proof {
        lemma_concat_step(parts, 9);
        assert(parts[9] == flag_text(options.temp));
    }
    append_str(out, " downloads=");
    proof {
        lemma_concat_step(parts, 10);
        assert(parts[10] == " downloads="@);
    }
    push_flag(out, options.downloads);
    proof {
        lemma_concat_step(parts, 11);
        assert(parts[11] == flag_text(options.downloads));
    }
    append_str(out, " build=");
    proof {
        lemma_concat_step(parts, 12);
        assert(parts[12] == " build="@);
    }
    push_flag(out, options.build);
    proof {
        lemma_concat_step(parts, 13);
        assert(parts[13] == flag_text(options.build));
    }
    append_str(out, " large=");
    proof {
        lemma_concat_step(parts, 14);
        assert(parts[14] == " large="@);
    }
    push_flag(out, options.large);
    proof {
        lemma_concat_step(parts, 15);
        assert(parts[15] == flag_text(options.large));
    }
    append_str(out, " duplicates=");
    proof {
        lemma_concat_step(parts, 16);
        assert(parts[16] == " duplicates="@);
    }
    push_flag(out, options.duplicates);
    proof {
        lemma_concat_step(parts, 17);
        assert(parts[17] == flag_text(options.duplicates));
    }
    append_str(out, " old=");
    proof {
        lemma_concat_step(parts, 18);
        assert(parts[18] == " old="@);
    }
    push_flag(out, options.old);
    proof {
        lemma_concat_step(parts, 19);
        assert(parts[19] == flag_text(options.old));
    }
}

fn push_limits(out: &mut Vec<char>, options: &ScanOptions)
    requires
        old(out)@ == concat_all(fingerprint_parts(options@).take(20)),
    ensures
        final(out)@ == concat_all(fingerprint_parts(options@).take(28)),
{
    let ghost parts = fingerprint_parts(options@);
    append_str(out, " min_age=");
    proof {
        lemma_concat_step(parts, 20);
        assert(parts[20] == " min_age="@);
    }
    push_optional_number(out, options.min_age);
    proof {
        lemma_concat_step(parts, 21);
        assert(parts[21] == optional_number(options.min_age));
    }
    append_str(out, " min_size=");
    proof {
        lemma_concat_step(parts, 22);
        assert(parts[22] == " min_size="@);
    }
    push_optional_text(out, &options.min_size);
    proof {
        lemma_concat_step(parts, 23);
        assert(parts[23] == optional_text(option_view(options.min_size)));
    }
    append_str(out, " project_age=");
    proof {
        lemma_concat_step(parts, 24);
        assert(parts[24] == " project_age="@);
    }
    push_optional_number(out, options.project_age);
    proof {
        lemma_concat_step(parts, 25);
        assert(parts[25] == optional_number(options.project_age));
    }
    append_str(out, " exclude=");
    proof {
        lemma_concat_step(parts, 26);
        assert(parts[26] == " exclude="@);
    }
    let exclude = sort_texts(&options.exclude);
    push_list(out, &exclude);
    proof {
        lemma_concat_step(parts, 27);
        assert(parts[27] == list_text(sorted_by(text_order(), options@.exclude)));
    }
}

/// The fingerprint of a request.
pub fn options_fingerprint(options: &ScanOptions) -> (r: String)
    ensures
        r@ == fingerprint(options@),
{
    let mut out: Vec<char> = Vec::new();
    assert(fingerprint_parts(options@).take(0) == Seq::<Seq<char>>::empty());
    push_path(&mut out, options);
    push_flags(&mut out, options);
    push_limits(&mut out, options);
    assert(fingerprint_parts(options@).take(28) == fingerprint_parts(options@));
    text_of(&out)
}

/// A kept result: when it was made, the fingerprint of the request that it
/// answers, and the result.
#[derive(Debug)]
pub struct CacheEnvelope {
    pub timestamp_secs: u64,
    pub options_key: String,
    pub result: ScanResult,
}

/// The mathematical content of a `CacheEnvelope`.
pub struct EnvelopeView {
    pub timestamp_secs: u64,
    pub options_key: Seq<char>,
    pub result: ScanResultView,
}

impl View for CacheEnvelope {
    type V = EnvelopeView;

    open spec fn view(&self) -> EnvelopeView {
        EnvelopeView {
            timestamp_secs: self.timestamp_secs,
            options_key: self.options_key@,
            result: self.result@,
        }
    }
}

/// The content of an optional envelope.
pub open spec fn stored_view(stored: Option<CacheEnvelope>) -> Option<EnvelopeView> {
    match stored {
        Some(e) => Some(e@),
        None => None,
    }
}

/// The content of an optional result.
pub open spec fn loaded_view(loaded: Option<ScanResult>) -> Option<ScanResultView> {
    match loaded {
        Some(r) => Some(r@),
        None => None,
    }
}

/// The envelope in which a result is kept: made at the time that the clock
/// gives, or at the start of time where the clock gives none.
pub open spec fn sealed(
    result: ScanResultView,
    options: ScanOptionsView,
    now_secs: Option<u64>,
) -> EnvelopeView {
    EnvelopeView {
        timestamp_secs: match now_secs {
            Some(t) => t,
            None => 0,
        },
        options_key: fingerprint(options),
        result,
    }
}

/// The seconds from `then` to `now`; none where `then` is not before `now`.
pub open spec fn seconds_since(now: u64, then: u64) -> u64 {
    if now >= then {
        (now - then) as u64
    } else {
        0
    }
}

/// What may be used of what was kept. Nothing, where nothing was kept, where
/// the clock gives no time, where the result is older than `max_age_secs`,
/// or where it answers a request with another fingerprint; else the result.
pub open spec fn usable(
    stored: Option<EnvelopeView>,
    options: ScanOptionsView,
    now_secs: Option<u64>,
    max_age_secs: u64,
) -> Option<ScanResultView> {
    match stored {
        None => None,
        Some(envelope) => match now_secs {
            None => None,
            Some(now) => if seconds_since(now, envelope.timestamp_secs) > max_age_secs
                || envelope.options_key != fingerprint(options) {
                None
            } else {
                Some(envelope.result)
            },
        },
    }
}

impl ScanResult {
    /// A copy of this result.
    pub fn duplicate(&self) -> (r: ScanResult)
        ensures
            r@ == self@,
    {
        let mut files: Vec<CleanableFile> = Vec::new();
        let mut i: usize = 0;
        while i < self.files.len()
            invariant
                i <= self.files.len(),
                file_views(files@) == file_views(self.files@).take(i as int),
            decreases self.files.len() - i,
        {
            let ghost before = file_views(files@);
            let f = self.files[i].duplicate();
            files.push(f);
            assert(file_views(files@) == before.push(f@));
            i += 1;
        }
        assert(file_views(self.files@).take(self.files.len() as int) == file_views(self.files@));
        let mut errors: Vec<String> = Vec::new();
        let mut j: usize = 0;
        while j < self.errors.len()
            invariant
                j <= self.errors.len(),
                string_views(errors@) == string_views(self.errors@).take(j as int),
            decreases self.errors.len() - j,
        {
            let ghost before = string_views(errors@);
            let e = self.errors[j].clone();
            errors.push(e);
            assert(string_views(errors@) == before.push(e@));
            j += 1;
        }
        assert(string_views(self.errors@).take(self.errors.len() as int) == string_views(
            self.errors@,
        ));
        ScanResult { files, errors }
    }
}

/// Puts a result into the envelope in which it is kept.
pub fn save(result: &ScanResult, options: &ScanOptions, now_secs: Option<u64>) -> (r: CacheEnvelope)
    ensures
        r@ == sealed(result@, options@, now_secs),
{
    CacheEnvelope {
        timestamp_secs: match now_secs {
            Some(t) => t,
            None => 0,
        },
        options_key: options_fingerprint(options),
        result: result.duplicate(),
    }
}

/// The kept result, if it may be used for the request: it was made no more
/// than `max_age_secs` seconds ago and answers a request with the same
/// fingerprint.
pub fn load_if_recent(
    stored: Option<CacheEnvelope>,
    options: &ScanOptions,
    now_secs: Option<u64>,
    max_age_secs: u64,
) -> (r: Option<ScanResult>)
    ensures
        loaded_view(r) == usable(stored_view(stored), options@, now_secs, max_age_secs),
{
    let envelope = match stored {
        Some(e) => e,
        None => {
            return None;
        },
    };
    let now = match now_secs {
        Some(t) => t,
        None => {
            return None;
        },
    };
    let age = if now >= envelope.timestamp_secs {
        now - envelope.timestamp_secs
    } else {
        0
    };
    if age > max_age_secs {
        return None;
    }
    let key = options_fingerprint(options);
    if !same_text(envelope.options_key.as_str(), key.as_str()) {
        return None;
    }
    Some(envelope.result)
}

/// The kept result, if it is no older than five minutes and answers a
/// request with the same fingerprint.
pub fn load_if_recent_default(
    stored: Option<CacheEnvelope>,
    options: &ScanOptions,
    now_secs: Option<u64>,
) -> (r: Option<ScanResult>)
    ensures
        loaded_view(r) == usable(stored_view(stored), options@, now_secs, CACHE_MAX_AGE_SECS),
{
    load_if_recent(stored, options, now_secs, CACHE_MAX_AGE_SECS)
}

/// A result that was kept is given back as it was for a request with the
/// same fingerprint, as long as it is no older than the window; for a
/// request with another fingerprint, or once the window has passed, nothing
/// is given back.
pub proof fn lemma_cache_round_trip(
    result: ScanResultView,
    saved_for: ScanOptionsView,
    asked_for: ScanOptionsView,
    saved_at: u64,
    asked_at: u64,
    max_age_secs: u64,
)
    ensures
        fingerprint(asked_for) == fingerprint(saved_for) && seconds_since(asked_at, saved_at)
            <= max_age_secs ==> usable(
            Some(sealed(result, saved_for, Some(saved_at))),
            asked_for,
            Some(asked_at),
            max_age_secs,
        ) == Some(result),
        fingerprint(asked_for) != fingerprint(saved_for) ==> usable(
            Some(sealed(result, saved_for, Some(saved_at))),
            asked_for,
            Some(asked_at),
            max_age_secs,
        ) is None,
        seconds_since(asked_at, saved_at) > max_age_secs ==> usable(
            Some(sealed(result, saved_for, Some(saved_at))),
            asked_for,
            Some(asked_at),
            max_age_secs,
        ) is None,
{
}

/// Two requests that differ at most in whether the result is wanted as
/// JSON and in the order of their exclusions have the same fingerprint.
pub proof fn lemma_fingerprint_of_same_request(a: ScanOptionsView, b: ScanOptionsView)
    requires
        a.all == b.all,
        a.cache == b.cache,
        a.trash == b.trash,
        a.temp == b.temp,
        a.downloads == b.downloads,
        a.build == b.build,
        a.large == b.large,
        a.duplicates == b.duplicates,
        a.old == b.old,
        a.min_age == b.min_age,
        a.min_size == b.min_size,
        a.project_age == b.project_age,
        target_text(a) == target_text(b),
        a.exclude.to_multiset() == b.exclude.to_multiset(),
    ensures
        fingerprint(a) == fingerprint(b),
{
    lemma_text_order();
    lemma_sorted_by_forgets_order(text_order(), a.exclude, b.exclude);
}

/// The texts one after the other are those before a place, the text at
/// that place, and those behind it.
pub proof fn lemma_concat_split(parts: Seq<Seq<char>>, i: int)
    requires
        0 <= i < parts.len(),
    ensures
        concat_all(parts) == concat_all(parts.take(i)) + parts[i] + concat_all(parts.skip(i + 1)),
    decreases parts.len(),
{
    let rest = parts.drop_last();
    if i == parts.len() - 1 {
        assert(parts.take(i) == rest);
        assert(parts.skip(i + 1) == Seq::<Seq<char>>::empty());
        assert(concat_all(rest) + parts[i] + Seq::<char>::empty() == concat_all(rest) + parts[i]);
    } else {
        lemma_concat_split(rest, i);
        assert(rest.take(i) == parts.take(i));
        assert(rest[i] == parts[i]);
        assert(parts.skip(i + 1).drop_last() == rest.skip(i + 1));
        assert(parts.skip(i + 1).last() == parts.last());
        let x = concat_all(parts.take(i));
        let y = concat_all(rest.skip(i + 1));
        assert(x + parts[i] + y + parts.last() == x + parts[i] + (y + parts.last()));
    }
}

/// Texts put together from parts that differ in one place only differ.
pub proof fn lemma_concat_differs(a: Seq<Seq<char>>, b: Seq<Seq<char>>, i: int)
    requires
        a.len() == b.len(),
        0 <= i < a.len(),
        forall|j: int| 0 <= j < a.len() && j != i ==> a[j] == b[j],
        a[i] != b[i],
    ensures
        concat_all(a) != concat_all(b),
{
    lemma_concat_split(a, i);
    lemma_concat_split(b, i);
    assert(a.take(i) =~= b.take(i));
    assert(a.skip(i + 1) =~= b.skip(i + 1));
    let x = concat_all(a.take(i));
    let y = concat_all(a.skip(i + 1));
    let fa = x + a[i] + y;
    let fb = x + b[i] + y;
    if fa == fb {
        assert(fa.len() == x.len() + a[i].len() + y.len());
        assert(fb.len() == x.len() + b[i].len() + y.len());
        assert forall|k: int| 0 <= k < a[i].len() implies a[i][k] == b[i][k] by {
            assert(fa[x.len() + k] == a[i][k]);
            assert(fb[x.len() + k] == b[i][k]);
        }
        assert(a[i] =~= b[i]);
    }
}

/// The two flags are written differently.
pub proof fn lemma_flag_texts_differ(a: bool, b: bool)
    requires
        a != b,
    ensures
        flag_text(a) != flag_text(b),
{
    reveal_strlit("true");
    reveal_strlit("false");
    assert("true"@.len() != "false"@.len());
}

/// Different numbers have different decimal notations.
pub proof fn lemma_decimal_tells_apart(m: nat, n: nat)
    requires
        m != n,
    ensures
        decimal(m) != decimal(n),
    decreases m + n,
{
    lemma_decimal_len(m);
    lemma_decimal_len(n);
    if m < 10 && n < 10 {
        assert(decimal(m)[0] != decimal(n)[0]);
    } else if m >= 10 && n >= 10 {
        if decimal(m) == decimal(n) {
            assert(decimal(m).last() == decimal(n).last());
            assert(m % 10 == n % 10);
            assert(decimal(m).drop_last() == decimal(m / 10));
            assert(decimal(n).drop_last() == decimal(n / 10));
            assert(m / 10 != n / 10);
            lemma_decimal_tells_apart(m / 10, n / 10);
        }
    } else {
        assert(decimal(m).len() != decimal(n).len());
    }
}

/// A number below ten is written with one digit, any other with more.
pub proof fn lemma_decimal_len(n: nat)
    ensures
        n < 10 ==> decimal(n).len() == 1,
        n >= 10 ==> decimal(n).len() >= 2,
    decreases n,
{
    if n >= 10 {
        lemma_decimal_len(n / 10);
    }
}

/// Different optional numbers are written differently.
pub proof fn lemma_optional_numbers_differ(a: Option<u32>, b: Option<u32>)
    requires
        a != b,
    ensures
        optional_number(a) != optional_number(b),
{
    reveal_strlit("Some(");
    reveal_strlit("None");
    reveal_strlit(")");
    match (a, b) {
        (Some(m), Some(n)) => {
            lemma_decimal_tells_apart(m as nat, n as nat);
            let x = "Some("@ + decimal(m as nat) + ")"@;
            let y = "Some("@ + decimal(n as nat) + ")"@;
            assert("Some("@.len() == 5 && ")"@.len() == 1);
            assert(x.len() == 5 + decimal(m as nat).len() + 1);
            assert(y.len() == 5 + decimal(n as nat).len() + 1);
            if x == y {
                assert(decimal(m as nat).len() == decimal(n as nat).len());
                assert forall|k: int| 0 <= k < decimal(m as nat).len() implies decimal(
                    m as nat,
                )[k] == decimal(n as nat)[k] by {
                    assert(x[5 + k] == decimal(m as nat)[k]);
                    assert(y[5 + k] == decimal(n as nat)[k]);
                }
                assert(decimal(m as nat) =~= decimal(n as nat));
            }
        },
        (Some(m), None) => {
            let x = "Some("@ + decimal(m as nat) + ")"@;
            assert(x[0] == 'S');
            assert("None"@[0] == 'N');
        },
        (None, Some(n)) => {
            let y = "Some("@ + decimal(n as nat) + ")"@;
            assert(y[0] == 'S');
            assert("None"@[0] == 'N');
        },
        (None, None) => {},
    }
}

/// One if the two differ, else none.
pub open spec fn one_if(differ: bool) -> nat {
    if differ {
        1
    } else {
        0
    }
}

/// In how many of the path, the category flags, the age of old files and
/// the age of projects two requests differ.
pub open spec fn differences(a: ScanOptionsView, b: ScanOptionsView) -> nat {
    one_if(target_text(a) != target_text(b)) + one_if(a.all != b.all) + one_if(a.cache != b.cache)
        + one_if(a.trash != b.trash) + one_if(a.temp != b.temp) + one_if(a.downloads != b.downloads)
        + one_if(a.build != b.build) + one_if(a.large != b.large) + one_if(
        a.duplicates != b.duplicates,
    ) + one_if(a.old != b.old) + one_if(a.min_age != b.min_age) + one_if(
        a.project_age != b.project_age,
    )
}

/// Two requests that ask for the same size and the same exclusions, and
/// differ in exactly one of the path, the category flags, the age of old
/// files and the age of projects, have different fingerprints.
pub proof fn lemma_fingerprint_tells_requests_apart(a: ScanOptionsView, b: ScanOptionsView)
    requires
        a.min_size == b.min_size,
        a.exclude.to_multiset() == b.exclude.to_multiset(),
        differences(a, b) == 1,
    ensures
        fingerprint(a) != fingerprint(b),
{
    lemma_text_order();
    lemma_sorted_by_forgets_order(text_order(), a.exclude, b.exclude);
    if target_text(a) != target_text(b) {
        lemma_differs_in_one_part(a, b, 1);
    } else if a.all != b.all {
        lemma_flag_texts_differ(a.all, b.all);
        lemma_differs_in_one_part(a, b, 3);
    } else if a.cache != b.cache {
        lemma_flag_texts_differ(a.cache, b.cache);
        lemma_differs_in_one_part(a, b, 5);
    } else if a.trash != b.trash {
        lemma_flag_texts_differ(a.trash, b.trash);
        lemma_differs_in_one_part(a, b, 7);
    } else if a.temp != b.temp {
        lemma_flag_texts_differ(a.temp, b.temp);
        lemma_differs_in_one_part(a, b, 9);
    } else if a.downloads != b.downloads {
        lemma_flag_texts_differ(a.downloads, b.downloads);
        lemma_differs_in_one_part(a, b, 11);
    } else if a.build != b.build {
        lemma_flag_texts_differ(a.build, b.build);
        lemma_differs_in_one_part(a, b, 13);
    } else if a.large != b.large {
        lemma_flag_texts_differ(a.large, b.large);
        lemma_differs_in_one_part(a, b, 15);
    } else if a.duplicates != b.duplicates {
        lemma_flag_texts_differ(a.duplicates, b.duplicates);
        lemma_differs_in_one_part(a, b, 17);
    } else if a.old != b.old {
        lemma_flag_texts_differ(a.old, b.old);
        lemma_differs_in_one_part(a, b, 19);
    } else if a.min_age != b.min_age {
        lemma_optional_numbers_differ(a.min_age, b.min_age);
        lemma_differs_in_one_part(a, b, 21);
    } else if a.project_age != b.project_age {
        lemma_optional_numbers_differ(a.project_age, b.project_age);
        lemma_differs_in_one_part(a, b, 25);
    }
}

/// What a request says at an odd place among the parts of its fingerprint;
/// nothing at the even places, where the labels stand.
pub open spec fn said_at(o: ScanOptionsView, i: int) -> Seq<char> {
    if i == 1 {
        target_text(o)
    } else if i == 3 {
        flag_text(o.all)
    } else if i == 5 {
        flag_text(o.cache)
    } else if i == 7 {
        flag_text(o.trash)
    } else if i == 9 {
        flag_text(o.temp)
    } else if i == 11 {
        flag_text(o.downloads)
    } else if i == 13 {
        flag_text(o.build)
    } else if i == 15 {
        flag_text(o.large)
    } else if i == 17 {
        flag_text(o.duplicates)
    } else if i == 19 {
        flag_text(o.old)
    } else if i == 21 {
        optional_number(o.min_age)
    } else if i == 23 {
        optional_text(o.min_size)
    } else if i == 25 {
        optional_number(o.project_age)
    } else if i == 27 {
        list_text(sorted_by(text_order(), o.exclude))
    } else {
        Seq::empty()
    }
}

/// Two requests whose fingerprints are made of parts that differ in one
/// place only have different fingerprints.
proof fn lemma_differs_in_one_part(a: ScanOptionsView, b: ScanOptionsView, i: int)
    requires
        0 <= i < 28,
        said_at(a, i) != said_at(b, i),
        i != 1 ==> target_text(a) == target_text(b),
        i != 3 ==> a.all == b.all,
        i != 5 ==> a.cache == b.cache,
        i != 7 ==> a.trash == b.trash,
        i != 9 ==> a.temp == b.temp,
        i != 11 ==> a.downloads == b.downloads,
        i != 13 ==> a.build == b.build,
        i != 15 ==> a.large == b.large,
        i != 17 ==> a.duplicates == b.duplicates,
        i != 19 ==> a.old == b.old,
        i != 21 ==> a.min_age == b.min_age,
        i != 23 ==> a.min_size == b.min_size,
        i != 25 ==> a.project_age == b.project_age,
        i != 27 ==> sorted_by(text_order(), a.exclude) == sorted_by(text_order(), b.exclude),
    ensures
        fingerprint(a) != fingerprint(b),
{
    let pa = fingerprint_parts(a);
    let pb = fingerprint_parts(b);
    assert(pa.len() == 28 && pb.len() == 28);
    assert(pa[i] == said_at(a, i) || i % 2 == 0);
    assert(pb[i] == said_at(b, i) || i % 2 == 0);
    assert forall|j: int| 0 <= j < pa.len() && j != i implies pa[j] == pb[j] by {
        if j % 2 == 0 {
            assert(pa[j] == pb[j]);
        }
    }
    lemma_concat_differs(pa, pb, i);
}

} // verus!
