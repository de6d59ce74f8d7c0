//! The web share: its state, the link it is reached at, how requests are
//! read and routed, and the responses it sends.

use vstd::prelude::*;
use vstd::utf8::encode_utf8;

use crate::text::{
    ascii_lower, chars_eq, chars_of, contains_spec, is_alphanumeric, join, join_with,
    keep_nonempty, nonempty, push_char, push_chars, push_decimal, push_str, split_on,
    split_on_char, starts_with_spec, str_contains, str_starts_with, string_of, to_ascii_lowercase,
    decimal, string_from,
};

verus! {

// ---------------------------------------------------------------------
// State
// ---------------------------------------------------------------------

/// What the web share is doing: which file it offers, whether offering is
/// on, and whether the HTTP server runs.
pub struct WebShareState {
    pub share_path: Option<String>,
    pub share_enabled: bool,
    pub server_running: bool,
}

/// Why the web share cannot start.
#[derive(Debug, Clone, Copy, PartialEq, Eq, Structural)]
pub enum WebShareError {
    /// The file to share does not exist or is not a regular file.
    TargetMissing,
}

impl WebShareState {
    /// Nothing shared, no server.
    pub fn new() -> (s: WebShareState)
        ensures
            s.share_path is None,
            !s.share_enabled,
            !s.server_running,
    {
        WebShareState { share_path: None, share_enabled: false, server_running: false }
    }

    /// Starts sharing `file_path` (when it is not empty) and marks the server
    /// as running. `file_is_valid` says whether the path names an existing
    /// regular file. Gives `Ok(true)` when the server was already running,
    /// `Ok(false)` when it has to be started now.
    pub fn start_web_server(&mut self, file_path: &str, file_is_valid: bool) -> (res: Result<
        bool,
        WebShareError,
    >)
        ensures
            file_path@.len() > 0 && !file_is_valid ==> res == Err::<bool, WebShareError>(
                WebShareError::TargetMissing,
            ) && *final(self) == *old(self),
            !(file_path@.len() > 0 && !file_is_valid) ==> {
                &&& res == Ok::<bool, WebShareError>(old(self).server_running)
                &&& final(self).server_running
                &&& file_path@.len() > 0 ==> {
                    &&& final(self).share_path matches Some(p) && p@ == file_path@
                    &&& final(self).share_enabled
                }
                &&& file_path@.len() == 0 ==> {
                    &&& final(self).share_path == old(self).share_path
                    &&& final(self).share_enabled == old(self).share_enabled
                }
            },
    {
        if !file_path.is_empty() {
            if !file_is_valid {
                return Err(WebShareError::TargetMissing);
            }
            self.share_path = Some(string_from(file_path));
            self.share_enabled = true;
        }
        let was_running = self.server_running;
        self.server_running = true;
        Ok(was_running)
    }

    /// The server could not listen; it counts as not running.
    pub fn server_stopped(&mut self)
        ensures
            !final(self).server_running,
            final(self).share_path == old(self).share_path,
            final(self).share_enabled == old(self).share_enabled,
    {
        self.server_running = false;
    }

    /// Stops sharing: the file is forgotten and the share route is off; the
    /// server keeps running.
    pub fn stop_web_server(&mut self)
        ensures
            final(self).share_path is None,
            !final(self).share_enabled,
            final(self).server_running == old(self).server_running,
    {
        self.share_path = None;
        self.share_enabled = false;
    }

    /// Whether a file is on offer.
    pub fn has_active_file(&self) -> (b: bool)
        ensures
            b == (self.share_path is Some && self.share_enabled),
    {
        self.share_path.is_some() && self.share_enabled
    }
}

// ---------------------------------------------------------------------
// Device names in links
// ---------------------------------------------------------------------

/// A character of a name as it appears in a link: letters and digits, in
/// ASCII lowercase; anything else becomes `-`.
pub open spec fn slug_char(c: char) -> char {
    if crate::text::alphanumeric_spec(c) {
        ascii_lower(c)
    } else {
        '-'
    }
}

/// Every character of `s` as it appears in a link.
pub open spec fn slug_chars(s: Seq<char>) -> Seq<char> {
    Seq::new(s.len(), |i: int| slug_char(s[i]))
}

/// A name made fit for a link: characters mapped by `slug_char`, then the
/// runs between dashes joined by single dashes, empty runs dropped.
pub open spec fn clean_name_spec(s: Seq<char>) -> Seq<char> {
    join(nonempty(split_on(slug_chars(s), '-')), '-')
}

/// `name` made fit for a link.
pub fn clean_device_name(name: &str) -> (r: String)
    ensures
        r@ == clean_name_spec(name@),
{
    let chars = chars_of(name);
    let mut mapped: Vec<char> = Vec::new();
    let mut i: usize = 0;
    while i < chars.len()
        invariant
            i <= chars.len(),
            mapped@ == slug_chars(chars@.take(i as int)),
        decreases chars.len() - i,
    {
        let c = chars[i];
        let m = if is_alphanumeric(c) {
            to_ascii_lowercase(c)
        } else {
            '-'
        };
        mapped.push(m);
        i = i + 1;
        assert(mapped@ =~= slug_chars(chars@.take(i as int)));
    }
    assert(chars@.take(chars.len() as int) =~= chars@);
    let parts = split_on_char(&mapped, '-');
    let kept = keep_nonempty(parts);
    let joined = join_with(&kept, '-');
    string_of(&joined)
}

/// Whether `r` has no `sep` at its ends and never two in a row.
pub open spec fn well_separated(r: Seq<char>, sep: char) -> bool {
    &&& r.len() > 0 ==> r[0] != sep && r[r.len() - 1] != sep
    &&& forall|i: int| 0 <= i < r.len() - 1 && #[trigger] r[i] == sep ==> r[i + 1] != sep
}

proof fn lemma_split_pieces_free(s: Seq<char>, sep: char)
    ensures
        forall|k: int| 0 <= k < split_on(s, sep).len() ==> !(#[trigger] split_on(s, sep)[k]).contains(sep),
    decreases s.len(),
{
    crate::text::lemma_split_len(s, sep);
    if s.len() > 0 {
        lemma_split_pieces_free(s.drop_last(), sep);
        crate::text::lemma_split_len(s.drop_last(), sep);
        let prev = split_on(s.drop_last(), sep);
        assert forall|k: int| 0 <= k < split_on(s, sep).len() implies !(#[trigger] split_on(
            s,
            sep,
        )[k]).contains(sep) by {
            if s.last() != sep && k == prev.len() - 1 {
                let piece = prev.last().push(s.last());
                assert(!prev[k].contains(sep));
                if piece.contains(sep) {
                    let j = choose|j: int| 0 <= j < piece.len() && piece[j] == sep;
                    if j < piece.len() - 1 {
                        assert(prev.last()[j] == sep);
                    }
                }
            } else if k < prev.len() {
                assert(!prev[k].contains(sep));
            } else {
                assert(split_on(s, sep)[k] =~= Seq::<char>::empty());
            }
        }
    }
}

proof fn lemma_nonempty_keeps(parts: Seq<Seq<char>>, sep: char)
    requires
        forall|k: int| 0 <= k < parts.len() ==> !(#[trigger] parts[k]).contains(sep),
    ensures
        forall|k: int| 0 <= k < nonempty(parts).len() ==> !(#[trigger] nonempty(parts)[k]).contains(sep)
            && nonempty(parts)[k].len() > 0,
    decreases parts.len(),
{
    if parts.len() > 0 {
        let d = parts.drop_last();
        assert forall|k: int| 0 <= k < d.len() implies !(#[trigger] d[k]).contains(sep) by {
            assert(d[k] == parts[k]);
        }
        lemma_nonempty_keeps(d, sep);
        assert(!parts[parts.len() - 1].contains(sep));
        let prev = nonempty(d);
        assert forall|k: int| 0 <= k < nonempty(parts).len() implies !(#[trigger] nonempty(
            parts,
        )[k]).contains(sep) && nonempty(parts)[k].len() > 0 by {
            if k < prev.len() {
                assert(nonempty(parts)[k] == prev[k]);
            } else {
                assert(nonempty(parts)[k] == parts[parts.len() - 1]);
            }
        }
    }
}

proof fn lemma_join_well_separated(parts: Seq<Seq<char>>, sep: char)
    requires
        forall|k: int| 0 <= k < parts.len() ==> !(#[trigger] parts[k]).contains(sep) && parts[k].len() > 0,
    ensures
        well_separated(join(parts, sep), sep),
        parts.len() > 0 ==> join(parts, sep).len() > 0,
    decreases parts.len(),
{
    if parts.len() == 1 {
        let p = parts[0];
        assert(!p.contains(sep));
        assert forall|i: int| 0 <= i < p.len() implies p[i] != sep by {
            if p[i] == sep {
                assert(p.contains(sep));
            }
        }
    } else if parts.len() > 1 {
        let d = parts.drop_last();
        assert forall|k: int| 0 <= k < d.len() implies !(#[trigger] d[k]).contains(sep) && d[k].len() > 0 by {
            assert(d[k] == parts[k]);
        }
        lemma_join_well_separated(d, sep);
        let a = join(d, sep);
        let l = parts.last();
        assert(!parts[parts.len() - 1].contains(sep));
        assert forall|i: int| 0 <= i < l.len() implies l[i] != sep by {
            if l[i] == sep {
                assert(l.contains(sep));
            }
        }
        let r = a.push(sep) + l;
        assert(r == join(parts, sep));
        assert forall|i: int| 0 <= i < r.len() - 1 && #[trigger] r[i] == sep implies r[i + 1] != sep by {
            if i < a.len() - 1 {
                assert(r[i] == a[i]);
                assert(r[i + 1] == a[i + 1]);
            } else if i == a.len() - 1 {
                assert(r[i] == a[a.len() - 1]);
            } else if i == a.len() {
                assert(r[i + 1] == l[0]);
            } else {
                assert(r[i] == l[i - a.len() - 1]);
            }
        }
        assert(r[0] == a[0]);
        assert(r[r.len() - 1] == l[l.len() - 1]);
    }
}

/// A name made fit for a link never starts or ends with a dash and never
/// holds two dashes in a row.
pub proof fn lemma_clean_name_well_separated(s: Seq<char>)
    ensures
        well_separated(clean_name_spec(s), '-'),
{
    let pieces = split_on(slug_chars(s), '-');
    lemma_split_pieces_free(slug_chars(s), '-');
    lemma_nonempty_keeps(pieces, '-');
    lemma_join_well_separated(nonempty(pieces), '-');
}

/// Whether `c` is left as it is by the mapping into a link.
pub open spec fn slug_fixed(c: char) -> bool {
    slug_char(c) == c
}

/// Whether every character of `x` is left as it is by the mapping.
pub open spec fn all_slug_fixed(x: Seq<char>) -> bool {
    forall|i: int| 0 <= i < x.len() ==> slug_fixed(#[trigger] x[i])
}

proof fn lemma_slug_char_fixed(c: char)
    ensures
        slug_fixed(slug_char(c)),
{
    let u = c as u32;
    if crate::text::alphanumeric_spec(c) {
        if 'A' <= c && c <= 'Z' {
            let l = ((c as u32) + 32) as char;
            assert(l as u32 == u + 32);
            assert('a' <= l && l <= 'z');
        }
    }
}

proof fn lemma_split_pieces_fixed(x: Seq<char>)
    requires
        all_slug_fixed(x),
    ensures
        forall|k: int| 0 <= k < split_on(x, '-').len() ==> all_slug_fixed(#[trigger] split_on(x, '-')[k]),
    decreases x.len(),
{
    crate::text::lemma_split_len(x, '-');
    if x.len() > 0 {
        let d = x.drop_last();
        assert forall|i: int| 0 <= i < d.len() implies slug_fixed(#[trigger] d[i]) by {
            assert(d[i] == x[i]);
        }
        lemma_split_pieces_fixed(d);
        crate::text::lemma_split_len(d, '-');
        let prev = split_on(d, '-');
        assert(slug_fixed(x[x.len() - 1]));
        assert forall|k: int| 0 <= k < split_on(x, '-').len() implies all_slug_fixed(
            #[trigger] split_on(x, '-')[k],
        ) by {
            if x.last() != '-' && k == prev.len() - 1 {
                let piece = prev.last().push(x.last());
                assert(all_slug_fixed(prev[k]));
                assert forall|i: int| 0 <= i < piece.len() implies slug_fixed(#[trigger] piece[i]) by {
                    if i < piece.len() - 1 {
                        assert(piece[i] == prev.last()[i]);
                    }
                }
            } else if k < prev.len() {
                assert(all_slug_fixed(prev[k]));
            } else {
                assert(split_on(x, '-')[k] =~= Seq::<char>::empty());
            }
        }
    }
}

proof fn lemma_nonempty_fixed(parts: Seq<Seq<char>>)
    requires
        forall|k: int| 0 <= k < parts.len() ==> all_slug_fixed(#[trigger] parts[k]),
    ensures
        forall|k: int| 0 <= k < nonempty(parts).len() ==> all_slug_fixed(#[trigger] nonempty(parts)[k]),
    decreases parts.len(),
{
    if parts.len() > 0 {
        let d = parts.drop_last();
        assert forall|k: int| 0 <= k < d.len() implies all_slug_fixed(#[trigger] d[k]) by {
            assert(d[k] == parts[k]);
        }
        lemma_nonempty_fixed(d);
        let prev = nonempty(d);
        assert(all_slug_fixed(parts[parts.len() - 1]));
        assert forall|k: int| 0 <= k < nonempty(parts).len() implies all_slug_fixed(
            #[trigger] nonempty(parts)[k],
        ) by {
            if k < prev.len() {
                assert(nonempty(parts)[k] == prev[k]);
            } else {
                assert(nonempty(parts)[k] == parts[parts.len() - 1]);
            }
        }
    }
}

proof fn lemma_join_fixed(parts: Seq<Seq<char>>)
    requires
        forall|k: int| 0 <= k < parts.len() ==> all_slug_fixed(#[trigger] parts[k]),
    ensures
        all_slug_fixed(join(parts, '-')),
    decreases parts.len(),
{
    if parts.len() == 1 {
        assert(all_slug_fixed(parts[0]));
    } else if parts.len() > 1 {
        let d = parts.drop_last();
        assert forall|k: int| 0 <= k < d.len() implies all_slug_fixed(#[trigger] d[k]) by {
            assert(d[k] == parts[k]);
        }
        lemma_join_fixed(d);
        let a = join(d, '-');
        let l = parts.last();
        assert(all_slug_fixed(parts[parts.len() - 1]));
        lemma_slug_char_fixed('-');
        assert(crate::text::alphanumeric_spec('-') == false);
        let r = a.push('-') + l;
        assert forall|i: int| 0 <= i < r.len() implies slug_fixed(#[trigger] r[i]) by {
            if i < a.len() {
                assert(r[i] == a[i]);
            } else if i == a.len() {
                assert(r[i] == '-');
            } else {
                assert(r[i] == l[i - a.len() - 1]);
            }
        }
    }
}

proof fn lemma_nonempty_of_nonempty(parts: Seq<Seq<char>>)
    requires
        forall|k: int| 0 <= k < parts.len() ==> (#[trigger] parts[k]).len() > 0,
    ensures
        nonempty(parts) == parts,
    decreases parts.len(),
{
    if parts.len() > 0 {
        let d = parts.drop_last();
        assert forall|k: int| 0 <= k < d.len() implies (#[trigger] d[k]).len() > 0 by {
            assert(d[k] == parts[k]);
        }
        lemma_nonempty_of_nonempty(d);
        assert(parts[parts.len() - 1].len() > 0);
        assert(d.push(parts.last()) =~= parts);
    }
}

proof fn lemma_split_of_join(parts: Seq<Seq<char>>, sep: char)
    requires
        parts.len() > 0,
        forall|k: int| 0 <= k < parts.len() ==> !(#[trigger] parts[k]).contains(sep),
    ensures
        split_on(join(parts, sep), sep) == parts,
    decreases parts.len(),
{
    if parts.len() == 1 {
        assert(!parts[0].contains(sep));
        crate::text::lemma_split_no_sep(parts[0], sep);
        assert(seq![parts[0]] =~= parts);
    } else {
        let d = parts.drop_last();
        assert forall|k: int| 0 <= k < d.len() implies !(#[trigger] d[k]).contains(sep) by {
            assert(d[k] == parts[k]);
        }
        lemma_split_of_join(d, sep);
        assert(!parts[parts.len() - 1].contains(sep));
        crate::text::lemma_split_no_sep(parts.last(), sep);
        crate::text::lemma_split_concat(join(d, sep), parts.last(), sep);
        assert(d + seq![parts.last()] =~= parts);
    }
}

/// Making a name fit for a link twice changes nothing more than doing it
/// once; and such a name has no ASCII uppercase letter.
pub proof fn lemma_clean_name_idempotent(s: Seq<char>)
    ensures
        clean_name_spec(clean_name_spec(s)) == clean_name_spec(s),
        forall|i: int| 0 <= i < clean_name_spec(s).len() ==> !('A' <= #[trigger] clean_name_spec(s)[i]
            && clean_name_spec(s)[i] <= 'Z'),
{
    let m = slug_chars(s);
    assert forall|i: int| 0 <= i < m.len() implies slug_fixed(#[trigger] m[i]) by {
        lemma_slug_char_fixed(s[i]);
    }
    let pieces = split_on(m, '-');
    let q = nonempty(pieces);
    lemma_split_pieces_fixed(m);
    lemma_nonempty_fixed(pieces);
    lemma_join_fixed(q);
    lemma_split_pieces_free(m, '-');
    lemma_nonempty_keeps(pieces, '-');
    let r = clean_name_spec(s);
    assert(r == join(q, '-'));
    assert(slug_chars(r) =~= r);
    if q.len() == 0 {
        assert(r =~= Seq::<char>::empty());
        assert(split_on(r, '-') =~= seq![Seq::<char>::empty()]);
        let p = split_on(r, '-');
        assert(p.len() == 1);
        assert(p.last().len() == 0);
        assert(p.drop_last() =~= Seq::<Seq<char>>::empty());
        assert(nonempty(p.drop_last()) == p.drop_last());
        assert(nonempty(p) =~= Seq::<Seq<char>>::empty());
    } else {
        lemma_split_of_join(q, '-');
        lemma_nonempty_of_nonempty(q);
    }
    assert forall|i: int| 0 <= i < r.len() implies !('A' <= #[trigger] r[i] && r[i] <= 'Z') by {
        assert(slug_fixed(r[i]));
        if 'A' <= r[i] && r[i] <= 'Z' {
            let l = ((r[i] as u32) + 32) as char;
            assert(l as u32 == r[i] as u32 + 32);
        }
    }
}

// ---------------------------------------------------------------------
// The address in the share link
// ---------------------------------------------------------------------

/// How much an address is preferred (lower is better): home networks
/// first, then other private ranges, then anything else, such as virtual
/// adapters.
pub open spec fn ip_score(ip: Seq<char>) -> int {
    if starts_with_spec(ip, "192.168."@) {
        1
    } else if starts_with_spec(ip, "10."@) {
        2
    } else if starts_with_spec(ip, "172."@) && !starts_with_spec(ip, "172.16."@) {
        3
    } else {
        4
    }
}

/// The address a link uses: among the candidates, the first of those most
/// preferred; the loopback address when there is none.
pub open spec fn best_ip(ips: Seq<Seq<char>>) -> Seq<char>
    decreases ips.len(),
{
    if ips.len() == 0 {
        "127.0.0.1"@
    } else if ips.len() == 1 {
        ips[0]
    } else {
        let b = best_ip(ips.drop_last());
        if ip_score(ips.last()) < ip_score(b) {
            ips.last()
        } else {
            b
        }
    }
}

/// `ips` with `x` added at the end unless it is there already.
pub open spec fn add_unique(ips: Seq<Seq<char>>, x: Seq<char>) -> Seq<Seq<char>> {
    if ips.contains(x) {
        ips
    } else {
        ips.push(x)
    }
}

/// The candidates: the routed address, unless it is the loopback or the
/// unspecified address, then each host address not seen before.
pub open spec fn candidate_ips(route_ip: Option<Seq<char>>, host_ips: Seq<Seq<char>>) -> Seq<
    Seq<char>,
>
    decreases host_ips.len(),
{
    if host_ips.len() == 0 {
        match route_ip {
            Some(ip) => if ip != "127.0.0.1"@ && ip != "0.0.0.0"@ {
                seq![ip]
            } else {
                Seq::empty()
            },
            None => Seq::empty(),
        }
    } else {
        add_unique(candidate_ips(route_ip, host_ips.drop_last()), host_ips.last())
    }
}

/// The link to the share page of a device named `hostname` at `ip`.
pub open spec fn share_url_spec(ip: Seq<char>, hostname: Seq<char>) -> Seq<char> {
    "http://"@ + ip + ":7880/share/"@ + clean_name_spec(hostname) + "-browser"@
}

/// How much `ip` is preferred.
pub fn ip_preference(ip: &Vec<char>) -> (score: u8)
    ensures
        score == ip_score(ip@),
{
    if str_starts_with(ip, "192.168.") {
        1
    } else if str_starts_with(ip, "10.") {
        2
    } else if str_starts_with(ip, "172.") && !str_starts_with(ip, "172.16.") {
        3
    } else {
        4
    }
}

fn vec_contains_chars(ips: &Vec<Vec<char>>, x: &Vec<char>) -> (b: bool)
    ensures
        b == ips.deep_view().contains(x@),
{
    let mut k: usize = 0;
    while k < ips.len()
        invariant
            k <= ips.len(),
            forall|m: int| 0 <= m < k ==> ips.deep_view()[m] != x@,
        decreases ips.len() - k,
    {
        assert(ips.deep_view()[k as int] == ips@[k as int]@);
        if chars_eq(&ips[k], x) {
            assert(ips.deep_view()[k as int] == x@);
            return true;
        }
        k = k + 1;
    }
    false
}

/// The link that other devices open to reach the share page: the most
/// preferred of the candidate addresses (see `candidate_ips`), port 7880,
/// and the device name made fit for a link.
pub fn local_ip_url(route_ip: Option<String>, host_ips: &Vec<String>, hostname: &str) -> (url:
    String)
    ensures
        url@ == share_url_spec(
            best_ip(
                candidate_ips(
                    crate::paths::opt_view(route_ip),
                    Seq::new(host_ips@.len(), |i: int| host_ips@[i]@),
                ),
            ),
            hostname@,
        ),
{
    let ghost rv = crate::paths::opt_view(route_ip);
    let ghost hv = Seq::new(host_ips@.len(), |i: int| host_ips@[i]@);
    let mut ips: Vec<Vec<char>> = Vec::new();
    match route_ip {
        Some(s) => {
            let c = chars_of(s.as_str());
            let lo = chars_of("127.0.0.1");
            let un = chars_of("0.0.0.0");
            if !chars_eq(&c, &lo) && !chars_eq(&c, &un) {
                assert(c.deep_view() =~= c@);
                ips.push(c);
                assert(ips.deep_view() =~~= seq![s@]);
            }
        },
        None => {},
    }
    assert(hv.take(0) =~= Seq::<Seq<char>>::empty());
    assert(ips.deep_view() =~~= candidate_ips(rv, hv.take(0)));
    let mut i: usize = 0;
    while i < host_ips.len()
        invariant
            i <= host_ips.len(),
            hv == Seq::new(host_ips@.len(), |k: int| host_ips@[k]@),
            ips.deep_view() == candidate_ips(rv, hv.take(i as int)),
        decreases host_ips.len() - i,
    {
        let c = chars_of(host_ips[i].as_str());
        assert(hv.take(i + 1).drop_last() =~= hv.take(i as int));
        assert(hv.take(i + 1).last() == c@);
        if !vec_contains_chars(&ips, &c) {
            let ghost before = ips.deep_view();
            assert(c.deep_view() =~= c@);
            ips.push(c);
            assert(ips.deep_view() =~~= before.push(hv[i as int]));
        }
        i = i + 1;
    }
    assert(hv.take(host_ips.len() as int) =~= hv);
    let ghost cands = ips.deep_view();
    let mut best: Vec<char>;
    if ips.len() == 0 {
        best = chars_of("127.0.0.1");
    } else {
        let mut bi: usize = 0;
        assert(cands[0] == ips@[0]@);
        let mut bs: u8 = ip_preference(&ips[0]);
        let mut k: usize = 1;
        assert(cands.take(1) =~= seq![cands[0]]);
        while k < ips.len()
            invariant
                1 <= k <= ips.len(),
                bi < k,
                cands == ips.deep_view(),
                cands[bi as int] == best_ip(cands.take(k as int)),
                bs == ip_score(cands[bi as int]),
            decreases ips.len() - k,
        {
            assert(cands[k as int] == ips@[k as int]@);
            let s = ip_preference(&ips[k]);
            assert(cands.take(k + 1).drop_last() =~= cands.take(k as int));
            assert(cands.take(k + 1).last() == cands[k as int]);
            if s < bs {
                bi = k;
                bs = s;
            }
            k = k + 1;
        }
        assert(cands.take(ips.len() as int) =~= cands);
        best = Vec::new();
        let src = &ips[bi];
        assert(src@ == cands[bi as int]);
        let mut m: usize = 0;
        while m < src.len()
            invariant
                m <= src.len(),
                best@ == src@.take(m as int),
            decreases src.len() - m,
        {
            best.push(src[m]);
            m = m + 1;
            assert(best@ =~= src@.take(m as int));
        }
        assert(src@.take(src.len() as int) =~= src@);
    }
    let mut url = String::new();
    push_str(&mut url, "http://");
    push_chars(&mut url, &best);
    push_str(&mut url, ":7880/share/");
    let slug = clean_device_name(hostname);
    push_str(&mut url, slug.as_str());
    push_str(&mut url, "-browser");
    url
}

/// The chosen address is the loopback address when there are no
/// candidates; otherwise it is a candidate whose preference no candidate
/// beats, and no earlier candidate is as preferred.
pub proof fn lemma_best_ip(ips: Seq<Seq<char>>)
    ensures
        ips.len() == 0 ==> best_ip(ips) == "127.0.0.1"@,
        ips.len() > 0 ==> exists|i: int|
            0 <= i < ips.len() && ips[i] == best_ip(ips) && (forall|j: int|
                0 <= j < ips.len() ==> ip_score(#[trigger] ips[j]) >= ip_score(best_ip(ips))) && (
            forall|j: int| 0 <= j < i ==> ip_score(#[trigger] ips[j]) > ip_score(best_ip(ips))),
    decreases ips.len(),
{
    if ips.len() == 1 {
        assert(ips[0] == best_ip(ips));
    } else if ips.len() > 1 {
        let d = ips.drop_last();
        lemma_best_ip(d);
        let b = best_ip(d);
        let i = choose|i: int|
            0 <= i < d.len() && d[i] == b && (forall|j: int|
                0 <= j < d.len() ==> ip_score(#[trigger] d[j]) >= ip_score(b)) && (forall|j: int|
                0 <= j < i ==> ip_score(#[trigger] d[j]) > ip_score(b));
        if ip_score(ips.last()) < ip_score(b) {
            let w = ips.len() - 1;
            assert(ips[w] == best_ip(ips));
            assert forall|j: int| 0 <= j < ips.len() implies ip_score(#[trigger] ips[j]) >= ip_score(
                best_ip(ips),
            ) by {
                if j < w {
                    assert(ips[j] == d[j]);
                }
            }
            assert forall|j: int| 0 <= j < w implies ip_score(#[trigger] ips[j]) > ip_score(
                best_ip(ips),
            ) by {
                assert(ips[j] == d[j]);
            }
        } else {
            assert(ips[i] == best_ip(ips));
            assert forall|j: int| 0 <= j < ips.len() implies ip_score(#[trigger] ips[j]) >= ip_score(
                best_ip(ips),
            ) by {
                if j < ips.len() - 1 {
                    assert(ips[j] == d[j]);
                }
            }
            assert forall|j: int| 0 <= j < i implies ip_score(#[trigger] ips[j]) > ip_score(
                best_ip(ips),
            ) by {
                assert(ips[j] == d[j]);
            }
        }
    }
}

/// A character of a prefix is the character of the text at that place.
proof fn lemma_prefix_char(s: Seq<char>, pat: Seq<char>, k: int)
    requires
        starts_with_spec(s, pat),
        0 <= k < pat.len(),
    ensures
        s[k] == pat[k],
{
    assert(s.subrange(0, pat.len() as int)[k] == s[k]);
}

/// The address ranges do not overlap: a 10.* address is no 192.168.*
/// address, and a 172.* address is neither.
proof fn lemma_ip_ranges_disjoint(ip: Seq<char>)
    ensures
        starts_with_spec(ip, "10."@) ==> !starts_with_spec(ip, "192.168."@),
        starts_with_spec(ip, "172."@) ==> !starts_with_spec(ip, "192.168."@)
            && !starts_with_spec(ip, "10."@),
{
    reveal_strlit("10.");
    reveal_strlit("172.");
    reveal_strlit("192.168.");
    if starts_with_spec(ip, "10."@) && starts_with_spec(ip, "192.168."@) {
        lemma_prefix_char(ip, "10."@, 1);
        lemma_prefix_char(ip, "192.168."@, 1);
    }
    if starts_with_spec(ip, "172."@) && starts_with_spec(ip, "192.168."@) {
        lemma_prefix_char(ip, "172."@, 1);
        lemma_prefix_char(ip, "192.168."@, 1);
    }
    if starts_with_spec(ip, "172."@) && starts_with_spec(ip, "10."@) {
        lemma_prefix_char(ip, "172."@, 1);
        lemma_prefix_char(ip, "10."@, 1);
    }
}

/// Addresses are preferred by range: a 192.168.* address over any other
/// address, a 10.* address over any address outside those two ranges, a
/// 172.* address outside 172.16.* over any address in none of the three
/// ranges; two addresses of one range are preferred alike.
pub proof fn lemma_ip_ranges_ordered(a: Seq<char>, b: Seq<char>)
    ensures
        starts_with_spec(a, "192.168."@) && !starts_with_spec(b, "192.168."@) ==> ip_score(a)
            < ip_score(b),
        starts_with_spec(a, "10."@) && !starts_with_spec(b, "192.168."@) && !starts_with_spec(
            b,
            "10."@,
        ) ==> ip_score(a) < ip_score(b),
        starts_with_spec(a, "172."@) && !starts_with_spec(a, "172.16."@) && !starts_with_spec(
            b,
            "192.168."@,
        ) && !starts_with_spec(b, "10."@) && !(starts_with_spec(b, "172."@) && !starts_with_spec(
            b,
            "172.16."@,
        )) ==> ip_score(a) < ip_score(b),
        starts_with_spec(a, "192.168."@) && starts_with_spec(b, "192.168."@) ==> ip_score(a)
            == ip_score(b),
        starts_with_spec(a, "10."@) && starts_with_spec(b, "10."@) ==> ip_score(a) == ip_score(b),
        starts_with_spec(a, "172."@) && !starts_with_spec(a, "172.16."@) && starts_with_spec(
            b,
            "172."@,
        ) && !starts_with_spec(b, "172.16."@) ==> ip_score(a) == ip_score(b),
{
    lemma_ip_ranges_disjoint(a);
    lemma_ip_ranges_disjoint(b);
}

/// The link's address is a candidate when there is one. When a candidate is
/// a 192.168.* address, so is the chosen one; otherwise, when a candidate
/// is a 10.* address, so is the chosen one; otherwise, when a candidate is
/// a 172.* address outside 172.16.*, so is the chosen one.
pub proof fn lemma_best_ip_prefers(ips: Seq<Seq<char>>)
    ensures
        ips.len() > 0 ==> ips.contains(best_ip(ips)),
        (exists|i: int| 0 <= i < ips.len() && starts_with_spec(#[trigger] ips[i], "192.168."@))
            ==> starts_with_spec(best_ip(ips), "192.168."@),
        (exists|i: int| 0 <= i < ips.len() && starts_with_spec(#[trigger] ips[i], "10."@)) && (
        forall|i: int| 0 <= i < ips.len() ==> !starts_with_spec(#[trigger] ips[i], "192.168."@))
            ==> starts_with_spec(best_ip(ips), "10."@),
        (exists|i: int|
            0 <= i < ips.len() && starts_with_spec(#[trigger] ips[i], "172."@)
                && !starts_with_spec(ips[i], "172.16."@)) && (forall|i: int|
            0 <= i < ips.len() ==> !starts_with_spec(#[trigger] ips[i], "192.168."@)
                && !starts_with_spec(ips[i], "10."@)) ==> starts_with_spec(best_ip(ips), "172."@)
            && !starts_with_spec(best_ip(ips), "172.16."@),
{
    lemma_best_ip(ips);
    if ips.len() > 0 {
        let b = best_ip(ips);
        let w = choose|w: int|
            0 <= w < ips.len() && ips[w] == b && (forall|j: int|
                0 <= j < ips.len() ==> ip_score(#[trigger] ips[j]) >= ip_score(b)) && (forall|
                j: int,
            |
                0 <= j < w ==> ip_score(#[trigger] ips[j]) > ip_score(b));
        assert(ips[w] == b);
        if exists|i: int| 0 <= i < ips.len() && starts_with_spec(#[trigger] ips[i], "192.168."@) {
            let i = choose|i: int|
                0 <= i < ips.len() && starts_with_spec(#[trigger] ips[i], "192.168."@);
            lemma_ip_ranges_ordered(ips[i], b);
        }
        if exists|i: int| 0 <= i < ips.len() && starts_with_spec(#[trigger] ips[i], "10."@) {
            let i = choose|i: int| 0 <= i < ips.len() && starts_with_spec(#[trigger] ips[i], "10."@);
            lemma_ip_ranges_ordered(ips[i], b);
        }
        if exists|i: int|
            0 <= i < ips.len() && starts_with_spec(#[trigger] ips[i], "172."@)
                && !starts_with_spec(ips[i], "172.16."@) {
            let i = choose|i: int|
                0 <= i < ips.len() && starts_with_spec(#[trigger] ips[i], "172."@)
                    && !starts_with_spec(ips[i], "172.16."@);
            lemma_ip_ranges_ordered(ips[i], b);
        }
    }
}

// ---------------------------------------------------------------------
// Visitors' devices
// ---------------------------------------------------------------------

/// The kind of device a user agent names.
pub open spec fn ua_os(ua: Seq<char>) -> Seq<char> {
    let is_android = contains_spec(ua, "Android"@);
    let is_iphone = contains_spec(ua, "iPhone"@) || contains_spec(ua, "iPad"@);
    let is_windows = contains_spec(ua, "Windows"@);
    let is_mac = contains_spec(ua, "Macintosh"@) && !is_iphone;
    let is_linux = contains_spec(ua, "Linux"@) && !is_android;
    if is_android {
        "Android Phone"@
    } else if is_iphone {
        "iPhone"@
    } else if is_windows {
        "Windows PC"@
    } else if is_mac {
        "Mac"@
    } else if is_linux {
        "Linux PC"@
    } else {
        "Unknown Device"@
    }
}

/// The browser a user agent names.
pub open spec fn ua_browser(ua: Seq<char>) -> Seq<char> {
    if contains_spec(ua, "Firefox"@) {
        "Firefox"@
    } else if contains_spec(ua, "Chrome"@) {
        "Chrome"@
    } else if contains_spec(ua, "Safari"@) && !contains_spec(ua, "Chrome"@) {
        "Safari"@
    } else if contains_spec(ua, "Edge"@) {
        "Edge"@
    } else {
        "Browser"@
    }
}

/// A visitor's device as shown to the user: kind of device, then the
/// browser in parentheses.
pub open spec fn device_description(ua: Seq<char>) -> Seq<char> {
    ua_os(ua) + " ("@ + ua_browser(ua) + ")"@
}

/// How a user agent is described. Android wins over every other system; an
/// iPhone or an iPad counts as the Apple mobile device; then Windows; a
/// Macintosh that is no Apple mobile device is a Mac; Linux that is no
/// Android is a Linux PC. Among browsers Firefox wins, then Chrome, then
/// Safari (never when Chrome is named), then Edge.
pub proof fn lemma_user_agent_kinds(ua: Seq<char>)
    ensures
        contains_spec(ua, "Android"@) ==> ua_os(ua) == "Android Phone"@,
        !contains_spec(ua, "Android"@) && (contains_spec(ua, "iPhone"@) || contains_spec(
            ua,
            "iPad"@,
        )) ==> ua_os(ua) == "iPhone"@,
        !contains_spec(ua, "Android"@) && !contains_spec(ua, "iPhone"@) && !contains_spec(
            ua,
            "iPad"@,
        ) && contains_spec(ua, "Windows"@) ==> ua_os(ua) == "Windows PC"@,
        !contains_spec(ua, "Android"@) && !contains_spec(ua, "iPhone"@) && !contains_spec(
            ua,
            "iPad"@,
        ) && !contains_spec(ua, "Windows"@) && contains_spec(ua, "Macintosh"@) ==> ua_os(ua)
            == "Mac"@,
        !contains_spec(ua, "Android"@) && !contains_spec(ua, "iPhone"@) && !contains_spec(
            ua,
            "iPad"@,
        ) && !contains_spec(ua, "Windows"@) && !contains_spec(ua, "Macintosh"@) && contains_spec(
            ua,
            "Linux"@,
        ) ==> ua_os(ua) == "Linux PC"@,
        !contains_spec(ua, "Android"@) && !contains_spec(ua, "iPhone"@) && !contains_spec(
            ua,
            "iPad"@,
        ) && !contains_spec(ua, "Windows"@) && !contains_spec(ua, "Macintosh"@)
            && !contains_spec(ua, "Linux"@) ==> ua_os(ua) == "Unknown Device"@,
        contains_spec(ua, "Firefox"@) ==> ua_browser(ua) == "Firefox"@,
        !contains_spec(ua, "Firefox"@) && contains_spec(ua, "Chrome"@) ==> ua_browser(ua)
            == "Chrome"@,
        !contains_spec(ua, "Firefox"@) && !contains_spec(ua, "Chrome"@) && contains_spec(
            ua,
            "Safari"@,
        ) ==> ua_browser(ua) == "Safari"@,
        !contains_spec(ua, "Firefox"@) && !contains_spec(ua, "Chrome"@) && !contains_spec(
            ua,
            "Safari"@,
        ) && contains_spec(ua, "Edge"@) ==> ua_browser(ua) == "Edge"@,
        !contains_spec(ua, "Firefox"@) && !contains_spec(ua, "Chrome"@) && !contains_spec(
            ua,
            "Safari"@,
        ) && !contains_spec(ua, "Edge"@) ==> ua_browser(ua) == "Browser"@,
{
}

/// Describes the device a user agent names.
pub fn parse_user_agent(ua: &str) -> (d: String)
    ensures
        d@ == device_description(ua@),
{
    let u = chars_of(ua);
    let is_android = str_contains(&u, "Android");
    let is_iphone = str_contains(&u, "iPhone") || str_contains(&u, "iPad");
    let is_windows = str_contains(&u, "Windows");
    let is_mac = str_contains(&u, "Macintosh") && !is_iphone;
    let is_linux = str_contains(&u, "Linux") && !is_android;
    let os = if is_android {
        "Android Phone"
    } else if is_iphone {
        "iPhone"
    } else if is_windows {
        "Windows PC"
    } else if is_mac {
        "Mac"
    } else if is_linux {
        "Linux PC"
    } else {
        "Unknown Device"
    };
    let browser = if str_contains(&u, "Firefox") {
        "Firefox"
    } else if str_contains(&u, "Chrome") {
        "Chrome"
    } else if str_contains(&u, "Safari") && !str_contains(&u, "Chrome") {
        "Safari"
    } else if str_contains(&u, "Edge") {
        "Edge"
    } else {
        "Browser"
    };
    let mut d = String::new();
    push_str(&mut d, os);
    push_str(&mut d, " (");
    push_str(&mut d, browser);
    push_str(&mut d, ")");
    d
}

// ---------------------------------------------------------------------
// Requests
// ---------------------------------------------------------------------

/// The header name whose value is the user agent, in lowercase.
pub const USER_AGENT_HEADER: &'static str = "user-agent:";

/// What a request carries that the server looks at.
pub struct HttpRequest {
    pub method: String,
    pub uri: String,
    pub user_agent: String,
}

/// Whether `line` is the user agent header: its first characters are the
/// header name, ignoring ASCII case.
pub open spec fn is_user_agent_line(line: Seq<char>) -> bool {
    let p = USER_AGENT_HEADER@;
    line.len() >= p.len() && Seq::new(p.len(), |i: int| ascii_lower(line[i])) == p
}

/// The value of the first user agent header among `lines`, without
/// surrounding whitespace; a fixed text when there is none.
pub open spec fn user_agent_of(lines: Seq<Seq<char>>) -> Seq<char>
    decreases lines.len(),
{
    if lines.len() == 0 {
        "Unknown User-Agent"@
    } else if is_user_agent_line(lines[0]) {
        crate::text::trim_spec(lines[0].skip(USER_AGENT_HEADER@.len() as int))
    } else {
        user_agent_of(lines.drop_first())
    }
}

/// A request's method and target (the first two words of its first line)
/// and its user agent; nothing when the first line has fewer than two
/// words.
pub open spec fn parse_request_spec(request: Seq<char>) -> Option<(Seq<char>, Seq<char>, Seq<char>)> {
    let lines = split_on(request, '\n');
    let w = crate::text::words(lines[0]);
    if w.len() < 2 {
        None
    } else {
        Some((w[0], w[1], user_agent_of(lines)))
    }
}

fn is_user_agent_line_exec(line: &Vec<char>, header: &Vec<char>) -> (b: bool)
    requires
        header@ == USER_AGENT_HEADER@,
    ensures
        b == is_user_agent_line(line@),
{
    if line.len() < header.len() {
        return false;
    }
    let mut k: usize = 0;
    while k < header.len()
        invariant
            k <= header.len(),
            header.len() <= line.len(),
            header@ == USER_AGENT_HEADER@,
            forall|m: int| 0 <= m < k ==> ascii_lower(line@[m]) == header@[m],
        decreases header.len() - k,
    {
        if to_ascii_lowercase(line[k]) != header[k] {
            assert(Seq::new(header@.len(), |i: int| ascii_lower(line@[i]))[k as int] != header@[k as int]);
            return false;
        }
        k = k + 1;
    }
    assert(Seq::new(header@.len(), |i: int| ascii_lower(line@[i])) =~= header@);
    true
}

fn find_user_agent_line(lines: &Vec<Vec<char>>, header: &Vec<char>) -> (r: Option<usize>)
    requires
        header@ == USER_AGENT_HEADER@,
    ensures
        match r {
            Some(k) => k < lines.len() && is_user_agent_line(lines.deep_view()[k as int]) && forall|
                j: int,
            | 0 <= j < k ==> !is_user_agent_line(#[trigger] lines.deep_view()[j]),
            None => forall|j: int|
                0 <= j < lines.len() ==> !is_user_agent_line(#[trigger] lines.deep_view()[j]),
        },
{
    let mut i: usize = 0;
    while i < lines.len()
        invariant
            i <= lines.len(),
            header@ == USER_AGENT_HEADER@,
            forall|j: int| 0 <= j < i ==> !is_user_agent_line(#[trigger] lines.deep_view()[j]),
        decreases lines.len() - i,
    {
        assert(lines.deep_view()[i as int] == lines@[i as int]@);
        if is_user_agent_line_exec(&lines[i], header) {
            return Some(i);
        }
        i = i + 1;
    }
    None
}

proof fn lemma_user_agent_skip(lines: Seq<Seq<char>>, k: int)
    requires
        0 <= k <= lines.len(),
        forall|j: int| 0 <= j < k ==> !is_user_agent_line(#[trigger] lines[j]),
    ensures
        user_agent_of(lines) == user_agent_of(lines.skip(k)),
    decreases k,
{
    if k == 0 {
        assert(lines.skip(0) =~= lines);
    } else {
        lemma_user_agent_skip(lines, k - 1);
        let t = lines.skip(k - 1);
        assert(t[0] == lines[k - 1]);
        assert(t.drop_first() =~= lines.skip(k));
    }
}

/// The plain values of an optional request.
pub open spec fn request_view(r: Option<HttpRequest>) -> Option<(Seq<char>, Seq<char>, Seq<char>)> {
    match r {
        Some(q) => Some((q.method@, q.uri@, q.user_agent@)),
        None => None,
    }
}

/// Reads the parts of a request that the server looks at, from the bytes
/// received (read as UTF-8 with invalid sequences replaced).
pub fn parse_request(bytes: &[u8]) -> (res: Option<HttpRequest>)
    ensures
        request_view(res) == parse_request_spec(crate::text::utf8_lossy(bytes@)),
        vstd::utf8::valid_utf8(bytes@) ==> request_view(res) == parse_request_spec(
            vstd::utf8::decode_utf8(bytes@),
        ),
{
    let text = crate::text::decode_utf8_lossy(bytes);
    let request = text.as_str();
    let chars = chars_of(request);
    let lines = split_on_char(&chars, '\n');
    proof {
        crate::text::lemma_split_len(request@, '\n');
    }
    assert(lines@[0]@ == split_on(request@, '\n')[0]);
    let w = crate::text::split_words(&lines[0]);
    if w.len() < 2 {
        return None;
    }
    let header = chars_of(USER_AGENT_HEADER);
    let ghost lv = lines.deep_view();
    let found = find_user_agent_line(&lines, &header);
    proof {
        match found {
            Some(k) => {
                lemma_user_agent_skip(lv, k as int);
                assert(lv.skip(k as int)[0] == lv[k as int]);
            },
            None => {
                lemma_user_agent_skip(lv, lv.len() as int);
            },
        }
    }
    let user_agent = match found {
        Some(k) => {
            let line = &lines[k];
            assert(line@ == lv[k as int]);
            let mut rest: Vec<char> = Vec::new();
            let mut m: usize = header.len();
            while m < line.len()
                invariant
                    header.len() <= m <= line.len(),
                    rest@ == line@.subrange(header@.len() as int, m as int),
                decreases line.len() - m,
            {
                rest.push(line[m]);
                m = m + 1;
                assert(rest@ =~= line@.subrange(header@.len() as int, m as int));
            }
            assert(rest@ =~= line@.skip(header@.len() as int));
            string_of(&crate::text::trim(&rest))
        },
        None => {
            assert(lv.skip(lines.len() as int) =~= Seq::<Seq<char>>::empty());
            string_from("Unknown User-Agent")
        },
    };
    assert(w@[0]@ == crate::text::words(lines@[0]@)[0]);
    assert(w@[1]@ == crate::text::words(lines@[0]@)[1]);
    assert(user_agent@ == user_agent_of(lv));
    assert(lv == split_on(request@, '\n'));
    Some(
        HttpRequest {
            method: string_of(&w[0]),
            uri: string_of(&w[1]),
            user_agent,
        },
    )
}

/// Where a request goes.
#[derive(Debug, Clone, Copy, PartialEq, Eq, Structural)]
pub enum Route {
    /// The page about the tool.
    LandingPage,
    /// The page of the shared file.
    SharePage,
    /// Back to `/`, when nothing is shared.
    RedirectHome,
    /// The shared file itself.
    Download,
    /// An installer of the app.
    AppDownload,
    /// Nothing here.
    NotFound,
    /// Not a `GET`: no answer at all.
    Ignored,
}

/// Where a request with `method` for `uri` goes, given whether a file is
/// shared.
pub open spec fn route_spec(method: Seq<char>, uri: Seq<char>, share_active: bool) -> Route {
    if method != "GET"@ {
        Route::Ignored
    } else if uri == "/"@ {
        Route::LandingPage
    } else if starts_with_spec(uri, "/share/"@) {
        if share_active {
            Route::SharePage
        } else {
            Route::RedirectHome
        }
    } else if uri == "/download"@ {
        Route::Download
    } else if starts_with_spec(uri, "/download-app"@) {
        Route::AppDownload
    } else {
        Route::NotFound
    }
}

/// Where `request` goes, given whether a file is shared.
pub fn route_request(request: &HttpRequest, share_active: bool) -> (r: Route)
    ensures
        r == route_spec(request.method@, request.uri@, share_active),
{
    let m = chars_of(request.method.as_str());
    let u = chars_of(request.uri.as_str());
    if !crate::text::chars_eq_str(&m, "GET") {
        Route::Ignored
    } else if crate::text::chars_eq_str(&u, "/") {
        Route::LandingPage
    } else if str_starts_with(&u, "/share/") {
        if share_active {
            Route::SharePage
        } else {
            Route::RedirectHome
        }
    } else if crate::text::chars_eq_str(&u, "/download") {
        Route::Download
    } else if str_starts_with(&u, "/download-app") {
        Route::AppDownload
    } else {
        Route::NotFound
    }
}

/// With nothing shared, a request for a share page is sent back home; the
/// other routes do not depend on what is shared.
pub proof fn lemma_share_route_needs_active_file(method: Seq<char>, uri: Seq<char>)
    ensures
        route_spec(method, uri, false) != Route::SharePage,
        route_spec(method, uri, true) == Route::SharePage ==> route_spec(method, uri, false)
            == Route::RedirectHome,
        route_spec(method, uri, true) != Route::SharePage ==> route_spec(method, uri, false)
            == route_spec(method, uri, true),
{
}

// ---------------------------------------------------------------------
// Responses
// ---------------------------------------------------------------------

/// A redirect to `location`.
pub open spec fn redirect_response_spec(location: Seq<char>) -> Seq<char> {
    "HTTP/1.1 302 Found\r\nLocation: "@ + location
        + "\r\nContent-Length: 0\r\nConnection: close\r\n\r\n"@
}

/// A redirect to `location`.
pub fn redirect_response(location: &str) -> (s: String)
    ensures
        s@ == redirect_response_spec(location@),
{
    let mut s = String::new();
    push_str(&mut s, "HTTP/1.1 302 Found\r\nLocation: ");
    push_str(&mut s, location);
    push_str(&mut s, "\r\nContent-Length: 0\r\nConnection: close\r\n\r\n");
    s
}

/// A page: status line, headers with the body's length in bytes, then the
/// body.
pub open spec fn html_response_spec(body: Seq<char>) -> Seq<char> {
    "HTTP/1.1 200 OK\r\nContent-Type: text/html\r\nContent-Length: "@ + decimal(
        encode_utf8(body).len(),
    ) + "\r\nConnection: close\r\n\r\n"@ + body
}

/// The response that serves `body` as a page.
pub fn html_response(body: &str) -> (s: String)
    ensures
        s@ == html_response_spec(body@),
{
    let bytes = body.as_bytes();
    let n = bytes.len();
    assert(n == encode_utf8(body@).len());
    let mut s = String::new();
    push_str(&mut s, "HTTP/1.1 200 OK\r\nContent-Type: text/html\r\nContent-Length: ");
    push_decimal(&mut s, n as u64);
    push_str(&mut s, "\r\nConnection: close\r\n\r\n");
    push_str(&mut s, body);
    s
}

/// The page about the tool.
pub fn landing_page_response() -> (s: String)
    ensures
        s@ == html_response_spec(crate::pages::LANDING_PAGE@),
{
    html_response(crate::pages::LANDING_PAGE)
}

/// The share page for a file shown as `name`, `size` long; `name` is also
/// the name the page saves the download under.
pub open spec fn share_page_body(name: Seq<char>, size: Seq<char>) -> Seq<char> {
    crate::pages::SHARE_PAGE_HEAD@ + name + crate::pages::SHARE_PAGE_AFTER_NAME@ + size
        + crate::pages::SHARE_PAGE_AFTER_SIZE@ + name + crate::pages::SHARE_PAGE_TAIL@
}

/// The name and size text shown when nothing is shared.
pub open spec fn share_fields(share: Option<(Seq<char>, Seq<char>)>) -> (Seq<char>, Seq<char>) {
    match share {
        Some((n, s)) => (n, s),
        None => ("No active share"@, "0 MB"@),
    }
}

/// The share page, for the shared file's name and size text if a file is
/// shared.
pub fn share_page_response(share: Option<(String, String)>) -> (s: String)
    ensures
        s@ == html_response_spec(
            share_page_body(
                share_fields(
                    match share {
                        Some((n, z)) => Some((n@, z@)),
                        None => None,
                    },
                ).0,
                share_fields(
                    match share {
                        Some((n, z)) => Some((n@, z@)),
                        None => None,
                    },
                ).1,
            ),
        ),
{
    let (name, size) = match share {
        Some((n, z)) => (n, z),
        None => (string_from("No active share"), string_from("0 MB")),
    };
    let mut body = String::new();
    push_str(&mut body, crate::pages::SHARE_PAGE_HEAD);
    push_str(&mut body, name.as_str());
    push_str(&mut body, crate::pages::SHARE_PAGE_AFTER_NAME);
    push_str(&mut body, size.as_str());
    push_str(&mut body, crate::pages::SHARE_PAGE_AFTER_SIZE);
    push_str(&mut body, name.as_str());
    push_str(&mut body, crate::pages::SHARE_PAGE_TAIL);
    html_response(body.as_str())
}

/// The headers that start a file download of `size` bytes saved as
/// `file_name`.
pub open spec fn attachment_headers_spec(size: u64, file_name: Seq<char>) -> Seq<char> {
    "HTTP/1.1 200 OK\r\nContent-Type: application/octet-stream\r\nContent-Length: "@ + decimal(
        size as nat,
    ) + "\r\nContent-Disposition: attachment; filename=\""@ + file_name
        + "\"\r\nConnection: close\r\n\r\n"@
}

/// The headers that start a file download of `size` bytes saved as
/// `file_name`.
pub fn attachment_headers(size: u64, file_name: &str) -> (s: String)
    ensures
        s@ == attachment_headers_spec(size, file_name@),
{
    let mut s = String::new();
    push_str(
        &mut s,
        "HTTP/1.1 200 OK\r\nContent-Type: application/octet-stream\r\nContent-Length: ",
    );
    push_decimal(&mut s, size);
    push_str(&mut s, "\r\nContent-Disposition: attachment; filename=\"");
    push_str(&mut s, file_name);
    push_str(&mut s, "\"\r\nConnection: close\r\n\r\n");
    s
}

/// The answer when there is nothing at the requested place.
pub fn not_found_response() -> (s: &'static str)
    ensures
        s@ == "HTTP/1.1 404 NOT FOUND\r\nContent-Length: 0\r\nConnection: close\r\n\r\n"@,
{
    "HTTP/1.1 404 NOT FOUND\r\nContent-Length: 0\r\nConnection: close\r\n\r\n"
}

/// The answer when the server fails to read what it should send.
pub fn server_error_response() -> (s: &'static str)
    ensures
        s@ == "HTTP/1.1 500 INTERNAL SERVER ERROR\r\nContent-Length: 0\r\nConnection: close\r\n\r\n"@,
{
    "HTTP/1.1 500 INTERNAL SERVER ERROR\r\nContent-Length: 0\r\nConnection: close\r\n\r\n"
}

impl WebShareState {
    /// The file a download request is served from: none when sharing is off
    /// or nothing is shared.
    pub fn download_target(&self) -> (p: Option<String>)
        ensures
            match p {
                Some(s) => self.share_enabled && (self.share_path matches Some(q) && s@ == q@),
                None => !self.share_enabled || self.share_path is None,
            },
    {
        if !self.share_enabled {
            return None;
        }
        match &self.share_path {
            Some(q) => Some(q.clone()),
            None => None,
        }
    }
}

/// The report that a visitor started a download: file name, the visitor's
/// address and device, separated by `|`.
pub fn download_event(file_name: &str, client_ip: &str, device: &str) -> (s: String)
    ensures
        s@ == file_name@ + seq!['|'] + client_ip@ + seq!['|'] + device@,
{
    let mut s = String::new();
    push_str(&mut s, file_name);
    push_char(&mut s, '|');
    push_str(&mut s, client_ip);
    push_char(&mut s, '|');
    push_str(&mut s, device);
    assert(s@ =~= file_name@ + seq!['|'] + client_ip@ + seq!['|'] + device@);
    s
}

/// How far a download has got, and the last percentage reported.
pub struct DownloadProgress {
    pub size: u64,
    pub written: u64,
    pub last_percent: u32,
}

impl DownloadProgress {
    /// A download of `size` bytes, nothing sent yet.
    pub fn new(size: u64) -> (p: DownloadProgress)
        ensures
            p.size == size,
            p.written == 0,
            p.last_percent == 0,
    {
        DownloadProgress { size, written: 0, last_percent: 0 }
    }

    /// Counts `n` more bytes sent, and gives the new percentage when it
    /// differs from the last one reported (only for a non-empty file).
    pub fn record(&mut self, n: u64) -> (report: Option<u32>)
        requires
            old(self).written + n <= u64::MAX,
            old(self).size > 0 ==> (old(self).written + n) * 100 <= u64::MAX,
        ensures
            final(self).written == old(self).written + n,
            final(self).size == old(self).size,
            old(self).size == 0 ==> report is None && final(self).last_percent == old(self).last_percent,
            old(self).size > 0 ==> {
                let p = (((old(self).written + n) * 100) / (old(self).size as int)) as u32;
                &&& p != old(self).last_percent ==> report == Some(p) && final(self).last_percent == p
                &&& p == old(self).last_percent ==> report is None && final(self).last_percent
                    == old(self).last_percent
            },
    {
        self.written = self.written + n;
        if self.size > 0 {
            let p = (self.written * 100 / self.size) as u32;
            if p != self.last_percent {
                self.last_percent = p;
                return Some(p);
            }
        }
        None
    }
}

// ---------------------------------------------------------------------
// App installers
// ---------------------------------------------------------------------

/// The system an installer is asked for.
#[derive(Debug, Clone, Copy, PartialEq, Eq, Structural)]
pub enum InstallerOs {
    Windows,
    MacOs,
    Linux,
    Android,
    Unknown,
}

/// The system named in an installer request's target.
pub open spec fn installer_os_spec(uri: Seq<char>) -> InstallerOs {
    if contains_spec(uri, "os=windows"@) {
        InstallerOs::Windows
    } else if contains_spec(uri, "os=macos"@) {
        InstallerOs::MacOs
    } else if contains_spec(uri, "os=linux"@) {
        InstallerOs::Linux
    } else if contains_spec(uri, "os=android"@) {
        InstallerOs::Android
    } else {
        InstallerOs::Unknown
    }
}

/// The system named in an installer request for `uri`.
pub fn app_download_target(uri: &str) -> (os: InstallerOs)
    ensures
        os == installer_os_spec(uri@),
{
    let u = chars_of(uri);
    if str_contains(&u, "os=windows") {
        InstallerOs::Windows
    } else if str_contains(&u, "os=macos") {
        InstallerOs::MacOs
    } else if str_contains(&u, "os=linux") {
        InstallerOs::Linux
    } else if str_contains(&u, "os=android") {
        InstallerOs::Android
    } else {
        InstallerOs::Unknown
    }
}

/// The system's name as it appears in reports.
pub open spec fn os_name_spec(os: InstallerOs) -> Seq<char> {
    match os {
        InstallerOs::Windows => "windows"@,
        InstallerOs::MacOs => "macos"@,
        InstallerOs::Linux => "linux"@,
        InstallerOs::Android => "android"@,
        InstallerOs::Unknown => "unknown"@,
    }
}

/// The installer's file name for a system.
pub open spec fn installer_file_spec(os: InstallerOs) -> Seq<char> {
    match os {
        InstallerOs::Windows => "meshdrop.msi"@,
        InstallerOs::MacOs => "meshdrop.dmg"@,
        InstallerOs::Linux => "meshdrop.deb"@,
        InstallerOs::Android => "meshdrop.apk"@,
        InstallerOs::Unknown => "meshdrop.bin"@,
    }
}

/// Each system is served its own installer: Windows the .msi, macOS the
/// .dmg, Linux the .deb, Android the .apk, any other system the .bin; no
/// two systems are served the same file, and no two have the same name in
/// reports.
pub proof fn lemma_installer_files()
    ensures
        installer_file_spec(InstallerOs::Windows) == "meshdrop.msi"@,
        installer_file_spec(InstallerOs::MacOs) == "meshdrop.dmg"@,
        installer_file_spec(InstallerOs::Linux) == "meshdrop.deb"@,
        installer_file_spec(InstallerOs::Android) == "meshdrop.apk"@,
        installer_file_spec(InstallerOs::Unknown) == "meshdrop.bin"@,
        forall|a: InstallerOs, b: InstallerOs|
            a != b ==> #[trigger] installer_file_spec(a) != #[trigger] installer_file_spec(b),
        forall|a: InstallerOs, b: InstallerOs|
            a != b ==> #[trigger] os_name_spec(a) != #[trigger] os_name_spec(b),
{
    reveal_strlit("meshdrop.msi");
    reveal_strlit("meshdrop.dmg");
    reveal_strlit("meshdrop.deb");
    reveal_strlit("meshdrop.apk");
    reveal_strlit("meshdrop.bin");
    reveal_strlit("windows");
    reveal_strlit("macos");
    reveal_strlit("linux");
    reveal_strlit("android");
    reveal_strlit("unknown");
    assert forall|a: InstallerOs, b: InstallerOs|
        a != b implies #[trigger] installer_file_spec(a) != #[trigger] installer_file_spec(b) by {
        if installer_file_spec(a) == installer_file_spec(b) {
            assert(installer_file_spec(a)[9] == installer_file_spec(b)[9]);
            assert(installer_file_spec(a)[10] == installer_file_spec(b)[10]);
        }
    }
    assert forall|a: InstallerOs, b: InstallerOs|
        a != b implies #[trigger] os_name_spec(a) != #[trigger] os_name_spec(b) by {
        if os_name_spec(a) == os_name_spec(b) {
            assert(os_name_spec(a).len() == os_name_spec(b).len());
            assert(os_name_spec(a)[0] == os_name_spec(b)[0]);
        }
    }
}

/// A download request is served the installer of the system it names:
/// `os=windows` the .msi, else `os=macos` the .dmg, else `os=linux` the
/// .deb, else `os=android` the .apk, and a request naming none of them the
/// .bin.
pub proof fn lemma_download_serves_named_system(uri: Seq<char>)
    ensures
        contains_spec(uri, "os=windows"@) ==> installer_file_spec(installer_os_spec(uri))
            == "meshdrop.msi"@,
        !contains_spec(uri, "os=windows"@) && contains_spec(uri, "os=macos"@) ==> installer_file_spec(
            installer_os_spec(uri),
        ) == "meshdrop.dmg"@,
        !contains_spec(uri, "os=windows"@) && !contains_spec(uri, "os=macos"@) && contains_spec(
            uri,
            "os=linux"@,
        ) ==> installer_file_spec(installer_os_spec(uri)) == "meshdrop.deb"@,
        !contains_spec(uri, "os=windows"@) && !contains_spec(uri, "os=macos"@) && !contains_spec(
            uri,
            "os=linux"@,
        ) && contains_spec(uri, "os=android"@) ==> installer_file_spec(installer_os_spec(uri))
            == "meshdrop.apk"@,
        !contains_spec(uri, "os=windows"@) && !contains_spec(uri, "os=macos"@) && !contains_spec(
            uri,
            "os=linux"@,
        ) && !contains_spec(uri, "os=android"@) ==> installer_file_spec(installer_os_spec(uri))
            == "meshdrop.bin"@,
{
}

/// The system's name as it appears in reports.
pub fn os_name(os: InstallerOs) -> (s: &'static str)
    ensures
        s@ == os_name_spec(os),
{
    match os {
        InstallerOs::Windows => "windows",
        InstallerOs::MacOs => "macos",
        InstallerOs::Linux => "linux",
        InstallerOs::Android => "android",
        InstallerOs::Unknown => "unknown",
    }
}

/// The installer's file name for a system.
pub fn installer_file_name(os: InstallerOs) -> (s: &'static str)
    ensures
        s@ == installer_file_spec(os),
{
    match os {
        InstallerOs::Windows => "meshdrop.msi",
        InstallerOs::MacOs => "meshdrop.dmg",
        InstallerOs::Linux => "meshdrop.deb",
        InstallerOs::Android => "meshdrop.apk",
        InstallerOs::Unknown => "meshdrop.bin",
    }
}

/// The report that an installer download started: system, then file name.
pub fn app_download_event(os: InstallerOs) -> (s: String)
    ensures
        s@ == os_name_spec(os) + seq!['|'] + installer_file_spec(os),
{
    let mut s = String::new();
    push_str(&mut s, os_name(os));
    push_char(&mut s, '|');
    push_str(&mut s, installer_file_name(os));
    assert(s@ =~= os_name_spec(os) + seq!['|'] + installer_file_spec(os));
    s
}

/// Size of the stand-in installer served when no real one is present.
pub const PLACEHOLDER_SIZE: usize = 500000;

/// The text at the start of a stand-in installer.
pub open spec fn placeholder_text(os: InstallerOs) -> Seq<char> {
    "MeshDrop Native "@ + os_name_spec(os) + " App Build Installer Placeholder. Place your compiled files in installers/"@
        + installer_file_spec(os) + " to serve a real binary."@
}

/// The stand-in installer: the text, then zero bytes up to the fixed size.
pub open spec fn placeholder_bytes(os: InstallerOs) -> Seq<u8> {
    let t = encode_utf8(placeholder_text(os));
    if t.len() < PLACEHOLDER_SIZE {
        t + Seq::new((PLACEHOLDER_SIZE - t.len()) as nat, |i: int| 0u8)
    } else {
        t
    }
}

/// The stand-in installer for a system.
pub fn placeholder_installer(os: InstallerOs) -> (b: Vec<u8>)
    ensures
        b@ == placeholder_bytes(os),
{
    let mut text = String::new();
    push_str(&mut text, "MeshDrop Native ");
    push_str(&mut text, os_name(os));
    push_str(
        &mut text,
        " App Build Installer Placeholder. Place your compiled files in installers/",
    );
    push_str(&mut text, installer_file_name(os));
    push_str(&mut text, " to serve a real binary.");
    let tb = text.as_str().as_bytes();
    let mut out: Vec<u8> = vstd::slice::slice_to_vec(tb);
    if out.len() < PLACEHOLDER_SIZE {
        let pad_len: usize = PLACEHOLDER_SIZE - out.len();
        let pad = vec![0u8; pad_len];
        out.extend_from_slice(pad.as_slice());
        assert(out@ =~= placeholder_bytes(os));
    }
    out
}

} // verus!
