//! Decisions of the command-line front end that do not touch the file
//! system or the network: the client configuration it builds, which
//! equipment code it uses and persists, local file names, resume offsets,
//! and picking JWT candidates out of browser storage text.

use vstd::prelude::*;
use crate::config::{ClientConfig, Platform, Region};
use crate::payload::opt_str_view;
use crate::text::{
    after_last, before_first, chars_of, is_alphanumeric, opt_view, push_char, spec_is_alphanumeric,
    str_after_last, str_before_first, str_eq, occurs_at, slice_chars, string_from_chars,
    ascii_upper_seq, spec_to_uppercase, spec_trim, to_uppercase, trim,
};
use vstd::utf8::{encode_utf8, is_ascii_chars};

verus! {

/// The client configuration of the command line: the desktop identity in
/// the chosen region, with the given equipment code.
pub fn build_config(region: Region, equipment_code: String) -> (c: ClientConfig)
    ensures
        c.region == region,
        c.platform == Platform::Windows,
        c.app_version@ == "6.0.2"@,
        c.app_id@ == "studio_win"@,
        c.app_traffic@ == "release"@,
        c.client_id@ == Seq::<char>::empty(),
        c.app_key@ == Seq::<char>::empty(),
        c.equipment_code == equipment_code,
        c.language@ == "en"@,
        c.sign_key@ == Seq::<char>::empty(),
        c.user_agent@ == "insta360/studio"@,
{
    let mut cfg = ClientConfig::windows(region);
    cfg.platform = Platform::Windows;
    cfg.equipment_code = equipment_code;
    cfg
}

/// Small persisted configuration of the command line (non-secret).
#[derive(Debug, Clone)]
pub struct AppConfig {
    /// `X-Equipment-Code` to send (a MAC-format id).
    pub equipment_code: Option<String>,
}

impl Default for AppConfig {
    fn default() -> (c: AppConfig)
        ensures
            c.equipment_code is None,
    {
        AppConfig { equipment_code: None }
    }
}

/// What to do about the equipment code.
#[derive(Debug, Clone)]
pub enum EquipmentCodeStep {
    /// Use `code`; persist the configuration first when `save` is set.
    Use { code: String, save: bool },
    /// Nothing explicit or saved: detect one from the host.
    Detect,
}

/// The equipment code chosen from an explicit value and the saved one:
/// the explicit one wins; none means detection is needed.
pub open spec fn spec_chosen_code(saved: Option<Seq<char>>, explicit: Option<Seq<char>>) -> Option<
    Seq<char>,
> {
    match explicit {
        Some(ec) => Some(ec),
        None => saved,
    }
}

/// The saved equipment code after a choice: an explicit value replaces it.
pub open spec fn spec_saved_after(saved: Option<Seq<char>>, explicit: Option<Seq<char>>) -> Option<
    Seq<char>,
> {
    match explicit {
        Some(ec) => Some(ec),
        None => saved,
    }
}

/// Whether a choice changes what is saved (and so must be persisted).
pub open spec fn spec_must_save(saved: Option<Seq<char>>, explicit: Option<Seq<char>>) -> bool {
    match explicit {
        Some(ec) => saved != Some(ec),
        None => false,
    }
}

impl AppConfig {
    /// Choose the equipment code from an explicit value (which wins and is
    /// remembered) or the saved one; else ask for detection.
    pub fn choose_equipment_code(&mut self, explicit: Option<&str>) -> (step: EquipmentCodeStep)
        ensures
            opt_view(final(self).equipment_code) == spec_saved_after(
                opt_view(old(self).equipment_code),
                opt_str_view(explicit),
            ),
            explicit is None ==> final(self).equipment_code == old(self).equipment_code,
            match spec_chosen_code(opt_view(old(self).equipment_code), opt_str_view(explicit)) {
                Some(code) => step matches EquipmentCodeStep::Use { code: c, save } && c@ == code
                    && save == spec_must_save(
                    opt_view(old(self).equipment_code),
                    opt_str_view(explicit),
                ),
                None => step is Detect,
            },
    {
        match explicit {
            Some(ec) => {
                let same = match &self.equipment_code {
                    Some(s) => str_eq(s.as_str(), ec),
                    None => false,
                };
                if !same {
                    self.equipment_code = Some(ec.to_owned());
                }
                EquipmentCodeStep::Use { code: ec.to_owned(), save: !same }
            },
            None => match &self.equipment_code {
                Some(s) => EquipmentCodeStep::Use { code: s.clone(), save: false },
                None => EquipmentCodeStep::Detect,
            },
        }
    }

    /// Adopt a detected equipment code (empty when none was found); a
    /// non-empty one is remembered. Returns the code and whether to persist.
    pub fn adopt_detected(&mut self, detected: Option<String>) -> (r: (String, bool))
        ensures
            r.0@ == match opt_view(detected) {
                Some(d) => d,
                None => Seq::empty(),
            },
            r.1 == (r.0@.len() > 0),
            r.1 ==> final(self).equipment_code == Some(r.0),
            !r.1 ==> final(self).equipment_code == old(self).equipment_code,
    {
        let d = match detected {
            Some(d) => d,
            None => String::new(),
        };
        if !d.as_str().is_empty() {
            self.equipment_code = Some(d.clone());
            (d, true)
        } else {
            (d, false)
        }
    }
}

/// A file-name character: kept when alphanumeric or one of `._-`, else `_`.
pub open spec fn sanitized_char(c: char, alphanumeric: bool) -> char {
    if alphanumeric || c == '.' || c == '_' || c == '-' {
        c
    } else {
        '_'
    }
}

/// A name made safe to use as a local file name.
pub open spec fn spec_sanitize(name: Seq<char>) -> Seq<char> {
    name.map_values(|c: char| sanitized_char(c, spec_is_alphanumeric(c)))
}

/// One character of a sanitized name, given whether it is alphanumeric.
pub fn sanitize_char(c: char, alphanumeric: bool) -> (r: char)
    ensures
        r == sanitized_char(c, alphanumeric),
{
    if alphanumeric || c == '.' || c == '_' || c == '-' {
        c
    } else {
        '_'
    }
}

/// Replace every character that is not alphanumeric or one of `._-` by `_`.
pub fn sanitize(name: &str) -> (r: String)
    ensures
        r@ == spec_sanitize(name@),
{
    let cs = chars_of(name);
    let mut s = String::new();
    let mut i: usize = 0;
    while i < cs.len()
        invariant
            i <= cs.len(),
            cs@ == name@,
            s@ == spec_sanitize(name@).take(i as int),
        decreases cs.len() - i,
    {
        let c = cs[i];
        let a = is_alphanumeric(c);
        push_char(&mut s, sanitize_char(c, a));
        assert(s@ =~= spec_sanitize(name@).take(i + 1));
        i = i + 1;
    }
    assert(spec_sanitize(name@).take(cs.len() as int) =~= spec_sanitize(name@));
    s
}

/// The local file name of a direct download URL: the last path segment of
/// the URL without its query.
pub open spec fn spec_file_name_from_url(url: Seq<char>) -> Seq<char> {
    after_last(before_first(url, '?'), '/')
}

/// The local file name of a direct download URL.
pub fn file_name_from_url(url: &str) -> (r: String)
    ensures
        r@ == spec_file_name_from_url(url@),
{
    let path = str_before_first(url, '?');
    str_after_last(path.as_str(), '/')
}

/// The byte offset to resume a part at: the size of the existing local file
/// when resuming (0 when there is none), else 0.
pub fn resume_offset(resume: bool, existing_len: Option<u64>) -> (from: u64)
    ensures
        from == if resume {
            match existing_len {
                Some(n) => n,
                None => 0,
            }
        } else {
            0
        },
{
    if resume {
        match existing_len {
            Some(n) => n,
            None => 0,
        }
    } else {
        0
    }
}

/// Whether a part resumed at `from` is already complete (its declared size
/// is known and reached).
pub fn part_is_complete(from: u64, size: u64) -> (r: bool)
    ensures
        r == (from > 0 && size > 0 && from >= size),
{
    from > 0 && size > 0 && from >= size
}

/// Whether `c` may stand in a JWT (ASCII alphanumeric or one of `-_.`).
pub open spec fn is_token_char(c: char) -> bool {
    ||| ('a' <= c && c <= 'z')
    ||| ('A' <= c && c <= 'Z')
    ||| ('0' <= c && c <= '9')
    ||| c == '-' || c == '_' || c == '.'
}

/// The start of every JWT (the encoding of `{"`).
pub open spec fn jwt_marker() -> Seq<char> {
    seq!['e', 'y', 'J']
}

/// The first position at or after `i` where the JWT marker occurs, or -1.
pub open spec fn next_marker(s: Seq<char>, i: int) -> int
    decreases s.len() - i,
{
    if i < 0 || i + 3 > s.len() {
        -1
    } else if occurs_at(s, jwt_marker(), i) {
        i
    } else {
        next_marker(s, i + 1)
    }
}

/// The end of the run of token characters starting at `k`.
pub open spec fn run_end(s: Seq<char>, k: int) -> int
    decreases s.len() - k,
{
    if k < 0 || k >= s.len() {
        k
    } else if !is_token_char(s[k]) {
        k
    } else {
        run_end(s, k + 1)
    }
}

/// The number of `.` characters in `t`.
pub open spec fn dot_count(t: Seq<char>) -> nat
    decreases t.len(),
{
    if t.len() == 0 {
        0
    } else {
        dot_count(t.drop_last()) + if t.last() == '.' {
            1nat
        } else {
            0nat
        }
    }
}

/// Where the next JWT marker is, if any.
pub proof fn lemma_next_marker(s: Seq<char>, i: int)
    ensures
        next_marker(s, i) == -1 || (0 <= i <= next_marker(s, i) && next_marker(s, i) + 3 <= s.len()
            && occurs_at(s, jwt_marker(), next_marker(s, i))),
    decreases s.len() - i,
{
    if !(i < 0 || i + 3 > s.len()) && !occurs_at(s, jwt_marker(), i) {
        lemma_next_marker(s, i + 1);
    }
}

/// A token run stays within the text and holds token characters only.
pub proof fn lemma_run_end(s: Seq<char>, k: int)
    requires
        0 <= k <= s.len(),
    ensures
        k <= run_end(s, k) <= s.len(),
        forall|j: int| k <= j < run_end(s, k) ==> is_token_char(#[trigger] s[j]),
        run_end(s, k) < s.len() ==> !is_token_char(s[run_end(s, k)]),
    decreases s.len() - k,
{
    if k < s.len() && is_token_char(s[k]) {
        lemma_run_end(s, k + 1);
    }
}

/// The JWT candidates of `s` from position `i` on: at each marker, the run
/// of token characters it starts, kept when it holds at least two dots;
/// scanning resumes after the run.
pub open spec fn jwt_scan(s: Seq<char>, i: int) -> Seq<Seq<char>>
    decreases s.len() - i,
{
    if i < 0 || i > s.len() {
        Seq::empty()
    } else {
        let p = next_marker(s, i);
        if p < 0 {
            Seq::empty()
        } else {
            let e = run_end(s, p);
            let next = if e > p {
                e
            } else {
                p + 1
            };
            proof {
                lemma_next_marker(s, i);
                lemma_run_end(s, p);
            }
            let cand = s.subrange(p, e);
            let rest = jwt_scan(s, next);
            if dot_count(cand) >= 2 {
                seq![cand] + rest
            } else {
                rest
            }
        }
    }
}

/// The views of a list of strings.
pub open spec fn strings_view(v: Seq<String>) -> Seq<Seq<char>> {
    v.map_values(|x: String| x@)
}

fn find_marker(cs: &Vec<char>, i: usize) -> (r: Option<usize>)
    requires
        i <= cs.len(),
    ensures
        match r {
            Some(p) => p as int == next_marker(cs@, i as int),
            None => next_marker(cs@, i as int) == -1,
        },
{
    let marker = vec!['e', 'y', 'J'];
    assert(marker@ =~= jwt_marker());
    let mut k = i;
    while k < cs.len() && cs.len() - k >= 3
        invariant
            i <= k <= cs.len(),
            marker@ == jwt_marker(),
            next_marker(cs@, i as int) == next_marker(cs@, k as int),
        decreases cs.len() - k,
    {
        if cs[k] == 'e' && cs[k + 1] == 'y' && cs[k + 2] == 'J' {
            assert(cs@.subrange(k as int, k + 3) =~= jwt_marker());
            return Some(k);
        }
        assert(cs@.subrange(k as int, k + 3)[0] == cs@[k as int]);
        assert(cs@.subrange(k as int, k + 3)[1] == cs@[k + 1]);
        assert(cs@.subrange(k as int, k + 3)[2] == cs@[k + 2]);
        assert(!occurs_at(cs@, jwt_marker(), k as int));
        k = k + 1;
    }
    None
}

fn token_run_end(cs: &Vec<char>, p: usize) -> (e: usize)
    requires
        p <= cs.len(),
    ensures
        e as int == run_end(cs@, p as int),
{
    let mut e = p;
    while e < cs.len()
        invariant
            p <= e <= cs.len(),
            run_end(cs@, p as int) == run_end(cs@, e as int),
        decreases cs.len() - e,
    {
        let c = cs[e];
        let tok = ('a' <= c && c <= 'z') || ('A' <= c && c <= 'Z') || ('0' <= c && c <= '9') || c
            == '-' || c == '_' || c == '.';
        if !tok {
            return e;
        }
        e = e + 1;
    }
    e
}

fn count_dots(cs: &Vec<char>, p: usize, e: usize) -> (n: usize)
    requires
        p <= e <= cs.len(),
    ensures
        n as nat == dot_count(cs@.subrange(p as int, e as int)),
{
    let mut n: usize = 0;
    let mut k = p;
    while k < e
        invariant
            p <= k <= e <= cs.len(),
            n as nat == dot_count(cs@.subrange(p as int, k as int)),
            n <= k - p,
        decreases e - k,
    {
        assert(cs@.subrange(p as int, k + 1).drop_last() =~= cs@.subrange(p as int, k as int));
        if cs[k] == '.' {
            n = n + 1;
        }
        k = k + 1;
    }
    n
}

/// Extract the candidate `eyJ….eyJ….sig` JWT substrings of arbitrary text.
pub fn extract_jwts(s: &str) -> (r: Vec<String>)
    ensures
        strings_view(r@) == jwt_scan(s@, 0),
{
    let cs = chars_of(s);
    let mut out: Vec<String> = Vec::new();
    let mut i: usize = 0;
    while i <= cs.len()
        invariant
            i <= cs.len(),
            cs@ == s@,
            jwt_scan(s@, 0) == strings_view(out@) + jwt_scan(s@, i as int),
        decreases cs.len() + 1 - i,
    {
        let p = match find_marker(&cs, i) {
            Some(p) => p,
            None => {
                assert(strings_view(out@) + Seq::<Seq<char>>::empty() =~= strings_view(out@));
                return out;
            },
        };
        proof {
            lemma_next_marker(s@, i as int);
            lemma_run_end(s@, p as int);
        }
        let e = token_run_end(&cs, p);
        let next = if e > p {
            e
        } else {
            p + 1
        };
        let ghost before = strings_view(out@);
        if count_dots(&cs, p, e) >= 2 {
            let cand = string_from_chars(slice_chars(&cs, p, e).as_slice());
            out.push(cand);
            assert(strings_view(out@) =~= before + seq![s@.subrange(p as int, e as int)]);
            assert(before + seq![s@.subrange(p as int, e as int)] + jwt_scan(s@, next as int)
                =~= before + (seq![s@.subrange(p as int, e as int)] + jwt_scan(s@, next as int)));
        }
        i = next;
    }
    assert(strings_view(out@) + Seq::<Seq<char>>::empty() =~= strings_view(out@));
    out
}

/// Whether `a` orders before or equal to `b` character by character (the
/// order of `String`'s `Ord`, which compares UTF-8 bytes, agrees with it).
pub open spec fn lex_le(a: Seq<char>, b: Seq<char>) -> bool
    decreases a.len(),
{
    if a.len() == 0 {
        true
    } else if b.len() == 0 {
        false
    } else if a[0] < b[0] {
        true
    } else if a[0] > b[0] {
        false
    } else {
        lex_le(a.drop_first(), b.drop_first())
    }
}

/// The lexicographic order is reflexive.
pub proof fn lemma_lex_refl(a: Seq<char>)
    ensures
        lex_le(a, a),
    decreases a.len(),
{
    if a.len() > 0 {
        lemma_lex_refl(a.drop_first());
    }
}

/// The lexicographic order is total.
pub proof fn lemma_lex_total(a: Seq<char>, b: Seq<char>)
    ensures
        lex_le(a, b) || lex_le(b, a),
    decreases a.len(),
{
    if a.len() > 0 && b.len() > 0 && a[0] == b[0] {
        lemma_lex_total(a.drop_first(), b.drop_first());
    }
}

/// The lexicographic order is transitive.
pub proof fn lemma_lex_trans(a: Seq<char>, b: Seq<char>, c: Seq<char>)
    requires
        lex_le(a, b),
        lex_le(b, c),
    ensures
        lex_le(a, c),
    decreases a.len(),
{
    if a.len() > 0 && b.len() > 0 && c.len() > 0 && a[0] == b[0] && b[0] == c[0] {
        lemma_lex_trans(a.drop_first(), b.drop_first(), c.drop_first());
    }
}

fn chars_le(a: &Vec<char>, b: &Vec<char>) -> (r: bool)
    ensures
        r == lex_le(a@, b@),
{
    let mut i: usize = 0;
    assert(a@.skip(0) =~= a@);
    assert(b@.skip(0) =~= b@);
    while i < a.len() && i < b.len()
        invariant
            i <= a.len(),
            i <= b.len(),
            lex_le(a@, b@) == lex_le(a@.skip(i as int), b@.skip(i as int)),
        decreases a.len() - i,
    {
        assert(a@.skip(i as int)[0] == a@[i as int]);
        assert(b@.skip(i as int)[0] == b@[i as int]);
        assert(a@.skip(i as int).drop_first() =~= a@.skip(i + 1));
        assert(b@.skip(i as int).drop_first() =~= b@.skip(i + 1));
        if a[i] < b[i] {
            return true;
        }
        if a[i] > b[i] {
            return false;
        }
        i = i + 1;
    }
    i == a.len()
}

/// The first of a list of strings in lexicographic order (the first of
/// them after sorting), if any.
pub fn smallest(items: Vec<String>) -> (r: Option<String>)
    ensures
        items@.len() == 0 ==> r is None,
        items@.len() > 0 ==> (r matches Some(x) && exists|i: int|
            0 <= i < items@.len() && items@[i] == x) && (forall|j: int|
            0 <= j < items@.len() ==> lex_le(r->0@, #[trigger] items@[j]@)),
{
    if items.len() == 0 {
        return None;
    }
    let mut best: usize = 0;
    let mut i: usize = 1;
    proof {
        lemma_lex_refl(items@[0]@);
    }
    while i < items.len()
        invariant
            1 <= i <= items.len(),
            best < i,
            forall|j: int| 0 <= j < i ==> lex_le(items@[best as int]@, #[trigger] items@[j]@),
        decreases items.len() - i,
    {
        let a = chars_of(items[i].as_str());
        let b = chars_of(items[best].as_str());
        let ghost old_best = best;
        if !chars_le(&b, &a) {
            proof {
                lemma_lex_total(a@, b@);
                assert forall|j: int| 0 <= j < i implies lex_le(items@[i as int]@, #[trigger] items@[j]@) by {
                    lemma_lex_trans(items@[i as int]@, items@[old_best as int]@, items@[j]@);
                }
            }
            best = i;
        }
        proof {
            lemma_lex_refl(items@[best as int]@);
            lemma_lex_total(items@[best as int]@, items@[i as int]@);
        }
        i = i + 1;
    }
    Some(items[best].clone())
}

/// A host network interface as an equipment code: not the loopback
/// interface, and its normalized (trimmed, uppercased) address is 17 bytes
/// long and not all zeros.
pub open spec fn spec_mac_candidate(name: Seq<char>, normalized: Seq<char>) -> Option<Seq<char>> {
    if name == "lo"@ {
        None
    } else if encode_utf8(normalized).len() == 17 && normalized != "00:00:00:00:00:00"@ {
        Some(normalized)
    } else {
        None
    }
}

/// An interface's equipment-code candidate, given its normalized address.
pub fn mac_candidate(name: &str, normalized: String) -> (r: Option<String>)
    ensures
        opt_view(r) == spec_mac_candidate(name@, normalized@),
{
    if str_eq(name, "lo") {
        return None;
    }
    if normalized.as_str().as_bytes().len() == 17 && !str_eq(normalized.as_str(), "00:00:00:00:00:00") {
        Some(normalized)
    } else {
        None
    }
}

/// The normalized form of an interface address file: trimmed, uppercased
/// (on ASCII text, `a-z` become `A-Z`).
pub open spec fn spec_normalized_address(content: Seq<char>) -> Seq<char> {
    let t = spec_trim(content);
    if is_ascii_chars(t) {
        ascii_upper_seq(t)
    } else {
        spec_to_uppercase(t)
    }
}

/// The candidates among interfaces given as (name, address-file content).
pub open spec fn mac_candidates(entries: Seq<(String, String)>) -> Seq<Seq<char>>
    decreases entries.len(),
{
    if entries.len() == 0 {
        Seq::empty()
    } else {
        let init = mac_candidates(entries.drop_last());
        match spec_mac_candidate(entries.last().0@, spec_normalized_address(entries.last().1@)) {
            Some(m) => init.push(m),
            None => init,
        }
    }
}

/// Pick the host's equipment code among its network interfaces, given as
/// (name, address-file content): the smallest candidate address.
pub fn pick_equipment_code(entries: Vec<(String, String)>) -> (r: Option<String>)
    ensures
        mac_candidates(entries@).len() == 0 ==> r is None,
        mac_candidates(entries@).len() > 0 ==> (r matches Some(x) && mac_candidates(entries@).contains(
            x@,
        ) && (forall|j: int|
            0 <= j < mac_candidates(entries@).len() ==> lex_le(
                x@,
                #[trigger] mac_candidates(entries@)[j],
            ))),
{
    let mut macs: Vec<String> = Vec::new();
    let mut i: usize = 0;
    while i < entries.len()
        invariant
            i <= entries.len(),
            strings_view(macs@) == mac_candidates(entries@.take(i as int)),
        decreases entries.len() - i,
    {
        assert(entries@.take(i + 1).drop_last() =~= entries@.take(i as int));
        assert(entries@.take(i + 1).last() == entries@[i as int]);
        let name = &entries[i].0;
        let normalized = to_uppercase(trim(entries[i].1.as_str()));
        match mac_candidate(name.as_str(), normalized) {
            Some(m) => {
                macs.push(m);
                assert(strings_view(macs@) =~= mac_candidates(entries@.take(i + 1)));
            },
            None => {},
        }
        i = i + 1;
    }
    assert(entries@.take(entries@.len() as int) =~= entries@);
    let ghost mv = macs@;
    let r = smallest(macs);
    proof {
        if mv.len() > 0 {
            let x = r->0;
            let k = choose|k: int| 0 <= k < mv.len() && mv[k] == x;
            assert(strings_view(mv)[k] == x@);
            assert forall|j: int| 0 <= j < strings_view(mv).len() implies lex_le(
                x@,
                #[trigger] strings_view(mv)[j],
            ) by {
                assert(strings_view(mv)[j] == mv[j]@);
            }
        }
    }
    r
}

} // verus!
