//! The station list and the settings that go with it: the last station, the
//! list itself (newest first) and whether the last station starts on its own.
//! Reading and writing the settings file is the application's business; this
//! module is what the file holds and the rules by which the list changes.

use vstd::prelude::*;
use crate::text::{
    chars_of, same_text, split_on, lemma_split_nonempty, lemma_split_prefix, lemma_split_append_plain, has_prefix, lemma_trimmed_idempotent, lemma_trimmed_is_bare,
    lemma_trimmed_of_bare, is_whitespace, starts_with, strip_all, strip_prefixes, trim, trimmed,
};

verus! {

broadcast use vstd::string::group_string_axioms;

/// How many stations the list holds.
pub const MAX_RECENT: usize = 200;

/// A station as the specifications see it: its address and, if known, its name.
pub type StationView = (Seq<char>, Option<Seq<char>>);

/// `"http://"`.
pub open spec fn http_scheme() -> Seq<char> {
    seq!['h', 't', 't', 'p', ':', '/', '/']
}

/// `"https://"`.
pub open spec fn https_scheme() -> Seq<char> {
    seq!['h', 't', 't', 'p', 's', ':', '/', '/']
}

/// An address without its scheme: every leading `https://`, then every
/// leading `http://`, taken off in that order.
pub open spec fn without_scheme(u: Seq<char>) -> Seq<char> {
    strip_all(strip_all(u, https_scheme()), http_scheme())
}

/// Whether an (already trimmed) address is one the player can open.
pub open spec fn is_stream(t: Seq<char>) -> bool {
    starts_with(t, http_scheme()) || starts_with(t, https_scheme())
}

/// The name of an optional text, as characters.
pub open spec fn opt_text(o: Option<String>) -> Option<Seq<char>> {
    match o {
        Some(s) => Some(s@),
        None => None,
    }
}

/// The name of an optional borrowed text, as characters.
pub open spec fn opt_str(o: Option<&str>) -> Option<Seq<char>> {
    match o {
        Some(s) => Some(s@),
        None => None,
    }
}

/// What a station row is titled: its name when it has one that is not blank,
/// otherwise its address without the scheme.
pub open spec fn title_of(s: StationView) -> Seq<char> {
    if s.1 is Some && trimmed(s.1->0).len() > 0 {
        s.1->0
    } else {
        without_scheme(s.0)
    }
}

/// One entry of the list: the address and, if the station sent it, its name.
#[derive(Debug, Clone)]
pub struct Station {
    pub url: String,
    pub name: Option<String>,
}

impl View for Station {
    type V = StationView;

    open spec fn view(&self) -> StationView {
        (self.url@, opt_text(self.name))
    }
}

/// `"http://"` as a literal.
fn http_text() -> (r: &'static str)
    ensures
        r@ == http_scheme(),
{
    proof {
        reveal_strlit("http://");
    }
    let r = "http://";
    assert(r@ =~= http_scheme());
    r
}

/// `"https://"` as a literal.
fn https_text() -> (r: &'static str)
    ensures
        r@ == https_scheme(),
{
    proof {
        reveal_strlit("https://");
    }
    let r = "https://";
    assert(r@ =~= https_scheme());
    r
}

/// The address without its scheme, as `trim_start_matches` takes it off.
pub fn strip_scheme(u: &str) -> (r: &str)
    ensures
        r@ == without_scheme(u@),
{
    strip_prefixes(strip_prefixes(u, https_text()), http_text())
}

impl Station {
    /// What we show as the title: the station name, otherwise the URL without its scheme.
    pub fn title(&self) -> (r: &str)
        ensures
            r@ == title_of(self@),
    {
        match &self.name {
            Some(name) => {
                if !trim(name.as_str()).is_empty() {
                    return name.as_str();
                }
            },
            None => {},
        }
        strip_scheme(self.url.as_str())
    }
}

/// What counts as a stream we are willing to keep: something we can actually
/// hand to the player. One rule, used both by the import and by the directory
/// results, so the two cannot come to disagree.
pub fn is_stream_url(url: &str) -> (r: bool)
    ensures
        r == is_stream(trimmed(url@)),
{
    let t = chars_of(trim(url));
    let http = chars_of(http_text());
    let https = chars_of(https_text());
    has_prefix(&t, &http) || has_prefix(&t, &https)
}

// ---------------------------------------------------------------- the list as a sequence

/// Whether some station of the list has the address `u`.
pub open spec fn knows(m: Seq<StationView>, u: Seq<char>) -> bool {
    exists|i: int| 0 <= i < m.len() && (#[trigger] m[i]).0 == u
}

/// Whether position `i` holds the first station with the address `u`.
pub open spec fn first_at(m: Seq<StationView>, u: Seq<char>, i: int) -> bool {
    &&& 0 <= i < m.len()
    &&& m[i].0 == u
    &&& forall|j: int| 0 <= j < i ==> (#[trigger] m[j]).0 != u
}

/// Where the first station with the address `u` stands, or -1.
pub open spec fn position(m: Seq<StationView>, u: Seq<char>) -> int
    decreases m.len(),
{
    if m.len() == 0 {
        -1
    } else if m[0].0 == u {
        0
    } else if position(m.drop_first(), u) < 0 {
        -1
    } else {
        position(m.drop_first(), u) + 1
    }
}

/// The name the list already knows for the address `u`, if any.
pub open spec fn known_name(m: Seq<StationView>, u: Seq<char>) -> Option<Seq<char>> {
    if position(m, u) >= 0 {
        m[position(m, u)].1
    } else {
        None
    }
}

/// The list without the stations whose address is `u`, in the same order.
pub open spec fn drop_url(m: Seq<StationView>, u: Seq<char>) -> Seq<StationView>
    decreases m.len(),
{
    if m.len() == 0 {
        m
    } else if m.last().0 == u {
        drop_url(m.drop_last(), u)
    } else {
        drop_url(m.drop_last(), u).push(m.last())
    }
}

/// No two stations of the list share an address.
pub open spec fn distinct_urls(m: Seq<StationView>) -> bool {
    forall|i: int, j: int|
        0 <= i < m.len() && 0 <= j < m.len() && i != j ==> (#[trigger] m[i]).0 != (#[trigger] m[j]).0
}

/// The list after `u` was played: at the top, keeping the name we knew for it,
/// with every other entry of that address gone and the list cut to its size.
pub open spec fn remembered(m: Seq<StationView>, u: Seq<char>) -> Seq<StationView> {
    let l = seq![(u, known_name(m, u))] + drop_url(m, u);
    if l.len() <= MAX_RECENT {
        l
    } else {
        l.take(MAX_RECENT as int)
    }
}

/// A name as it is kept: trimmed, and none at all when it is blank.
pub open spec fn clean_name(name: Option<Seq<char>>) -> Option<Seq<char>> {
    match name {
        Some(n) => if trimmed(n).len() > 0 {
            Some(trimmed(n))
        } else {
            None
        },
        None => None,
    }
}

/// Whether the (trimmed) address `u` may be appended to the list.
pub open spec fn admits(m: Seq<StationView>, u: Seq<char>) -> bool {
    is_stream(u) && m.len() < MAX_RECENT && !knows(m, u)
}

/// One line of an imported list applied to the list and the count of stations added.
pub open spec fn import_step(st: (Seq<StationView>, nat), line: Seq<char>) -> (
    Seq<StationView>,
    nat,
) {
    if admits(st.0, trimmed(line)) {
        (st.0.push((trimmed(line), None)), st.1 + 1)
    } else {
        st
    }
}

/// The lines of an imported list applied one after the other.
pub open spec fn import_lines(m: Seq<StationView>, lines: Seq<Seq<char>>) -> (
    Seq<StationView>,
    nat,
)
    decreases lines.len(),
{
    if lines.len() == 0 {
        (m, 0)
    } else {
        import_step(import_lines(m, lines.drop_last()), lines.last())
    }
}

/// The list written out: one address per line, each line ended by `\n`.
pub open spec fn lines_text(m: Seq<StationView>) -> Seq<char>
    decreases m.len(),
{
    if m.len() == 0 {
        seq![]
    } else {
        lines_text(m.drop_last()) + m.last().0 + seq!['\n']
    }
}

/// The list once the first station with the address `u` is named `name`, when
/// that changes anything.
pub open spec fn renamed(m: Seq<StationView>, u: Seq<char>, name: Seq<char>) -> Option<
    Seq<StationView>,
> {
    let t = trimmed(name);
    let p = position(m, u);
    if t.len() > 0 && p >= 0 && m[p].1 != Some(t) {
        Some(m.update(p, (m[p].0, Some(t))))
    } else {
        None
    }
}

// ---------------------------------------------------------------- lemmas

/// `position` finds the first station of that address, and -1 means there is none.
pub proof fn lemma_position(m: Seq<StationView>, u: Seq<char>)
    ensures
        -1 <= position(m, u) < m.len(),
        position(m, u) < 0 <==> !knows(m, u),
        position(m, u) >= 0 ==> first_at(m, u, position(m, u)),
    decreases m.len(),
{
    if m.len() > 0 && m[0].0 != u {
        let t = m.drop_first();
        lemma_position(t, u);
        if position(t, u) < 0 {
            if knows(m, u) {
                let i = choose|i: int| 0 <= i < m.len() && (#[trigger] m[i]).0 == u;
                assert(t[i - 1] == m[i]);
            }
        } else {
            let p = position(t, u);
            assert(m[p + 1] == t[p]);
            assert forall|j: int| 0 <= j < p + 1 implies (#[trigger] m[j]).0 != u by {
                if j > 0 {
                    assert(m[j] == t[j - 1]);
                }
            }
        }
    } else if m.len() > 0 {
        assert(m[0].0 == u);
    }
}

/// There is only one first station of an address.
pub proof fn lemma_first_at_unique(m: Seq<StationView>, u: Seq<char>, i: int)
    requires
        first_at(m, u, i),
    ensures
        position(m, u) == i,
{
    lemma_position(m, u);
    let p = position(m, u);
    if p < i {
        assert(m[p].0 != u);
    } else if p > i {
        assert(m[i].0 != u);
    }
}

/// Dropping an address keeps the rest, and nothing else.
pub proof fn lemma_drop_url(m: Seq<StationView>, u: Seq<char>)
    ensures
        drop_url(m, u).len() <= m.len(),
        forall|k: int|
            0 <= k < drop_url(m, u).len() ==> (#[trigger] drop_url(m, u)[k]).0 != u && m.contains(
                drop_url(m, u)[k],
            ),
        forall|k: int| 0 <= k < m.len() && (#[trigger] m[k]).0 != u ==> drop_url(m, u).contains(m[k]),
        distinct_urls(m) ==> distinct_urls(drop_url(m, u)),
        !knows(m, u) ==> drop_url(m, u) == m,
    decreases m.len(),
{
    if m.len() > 0 {
        let init = m.drop_last();
        lemma_drop_url(init, u);
        let r = drop_url(init, u);
        assert forall|k: int| 0 <= k < drop_url(m, u).len() implies (#[trigger] drop_url(m, u)[k]).0
            != u && m.contains(drop_url(m, u)[k]) by {
            if k < r.len() {
                assert(drop_url(m, u)[k] == r[k]);
                let j = choose|j: int| 0 <= j < init.len() && init[j] == r[k];
                assert(m[j] == init[j]);
            } else {
                assert(drop_url(m, u)[k] == m.last());
                assert(m[m.len() - 1] == m.last());
            }
        }
        assert forall|k: int| 0 <= k < m.len() && (#[trigger] m[k]).0 != u implies drop_url(
            m,
            u,
        ).contains(m[k]) by {
            if k < m.len() - 1 {
                assert(init[k] == m[k]);
                let j = choose|j: int| 0 <= j < r.len() && r[j] == init[k];
                if m.last().0 != u {
                    assert(drop_url(m, u)[j] == r[j]);
                }
            } else {
                assert(drop_url(m, u)[r.len() as int] == m.last());
            }
        }
        if distinct_urls(m) {
            assert(distinct_urls(init)) by {
                assert forall|i: int, j: int|
                    0 <= i < init.len() && 0 <= j < init.len() && i != j implies (
                    #[trigger] init[i]).0 != (#[trigger] init[j]).0 by {
                    assert(init[i] == m[i] && init[j] == m[j]);
                }
            }
            if m.last().0 != u {
                let d = drop_url(m, u);
                assert forall|i: int, j: int|
                    0 <= i < d.len() && 0 <= j < d.len() && i != j implies (#[trigger] d[i]).0 != (
                    #[trigger] d[j]).0 by {
                    if i < r.len() && j < r.len() {
                        assert(d[i] == r[i] && d[j] == r[j]);
                    } else if i < r.len() {
                        assert(d[i] == r[i]);
                        let a = choose|a: int| 0 <= a < init.len() && init[a] == r[i];
                        assert(m[a] == init[a]);
                        assert(m[m.len() - 1] == d[j]);
                    } else {
                        assert(d[j] == r[j]);
                        let a = choose|a: int| 0 <= a < init.len() && init[a] == r[j];
                        assert(m[a] == init[a]);
                        assert(m[m.len() - 1] == d[i]);
                    }
                }
            }
        }
        if !knows(m, u) {
            assert(m.last().0 != u) by {
                assert(m[m.len() - 1] == m.last());
            }
            assert(!knows(init, u)) by {
                if knows(init, u) {
                    let i = choose|i: int| 0 <= i < init.len() && (#[trigger] init[i]).0 == u;
                    assert(m[i] == init[i]);
                }
            }
            assert(m =~= init.push(m.last()));
        }
    }
}


/// Once the list is full, further lines change nothing.
pub proof fn lemma_import_full(m: Seq<StationView>, pre: Seq<Seq<char>>, rest: Seq<Seq<char>>)
    requires
        import_lines(m, pre).0.len() >= MAX_RECENT,
    ensures
        import_lines(m, pre + rest) == import_lines(m, pre),
    decreases rest.len(),
{
    if rest.len() == 0 {
        assert(pre + rest =~= pre);
    } else {
        lemma_import_full(m, pre, rest.drop_last());
        assert((pre + rest).drop_last() =~= pre + rest.drop_last());
    }
}

// ---------------------------------------------------------------- the settings

/// The settings: the last station, the list and the autoplay switch.
#[derive(Debug, Clone)]
pub struct Config {
    /// The stream that played last; it starts automatically on launch.
    pub last_url: String,
    /// The stations of the list, newest first.
    pub recent: Vec<Station>,
    /// Whether `last_url` starts on its own at launch.
    pub autoplay: bool,
}

impl Default for Config {
    fn default() -> (c: Self)
        ensures
            c.last_url@ == Seq::<char>::empty(),
            c.recent@.len() == 0,
            c.autoplay,
    {
        Config { last_url: String::new(), recent: Vec::new(), autoplay: true }
    }
}

/// A copy of an optional name.
fn copy_name(n: &Option<String>) -> (r: Option<String>)
    ensures
        r == *n,
{
    match n {
        Some(s) => Some(s.clone()),
        None => None,
    }
}

impl Config {
    /// The list as the specifications see it.
    pub open spec fn stations(&self) -> Seq<StationView> {
        self.recent@.map_values(|s: Station| s@)
    }

    /// What every operation keeps: no address twice, and no more than `MAX_RECENT` entries.
    pub open spec fn wf(&self) -> bool {
        distinct_urls(self.stations()) && self.recent@.len() <= MAX_RECENT
    }

    /// Where the first station with this address stands.
    fn find(&self, url: &str) -> (r: Option<usize>)
        ensures
            match r {
                Some(i) => i < self.recent@.len() && i as int == position(self.stations(), url@),
                None => position(self.stations(), url@) < 0,
            },
    {
        let mut i: usize = 0;
        while i < self.recent.len()
            invariant
                i <= self.recent@.len(),
                forall|j: int| 0 <= j < i ==> (#[trigger] self.stations()[j]).0 != url@,
            decreases self.recent@.len() - i,
        {
            if same_text(self.recent[i].url.as_str(), url) {
                proof {
                    assert(self.stations()[i as int] == self.recent@[i as int]@);
                    lemma_first_at_unique(self.stations(), url@, i as int);
                }
                return Some(i);
            }
            i = i + 1;
        }
        proof {
            lemma_position(self.stations(), url@);
            if knows(self.stations(), url@) {
                let k = choose|k: int|
                    0 <= k < self.stations().len() && (#[trigger] self.stations()[k]).0 == url@;
            }
        }
        None
    }

    /// The first station with this address, if the list has one.
    pub fn station(&self, url: &str) -> (r: Option<&Station>)
        ensures
            r is None <==> position(self.stations(), url@) < 0,
            r matches Some(s) ==> *s == self.recent@[position(self.stations(), url@)],
    {
        match self.find(url) {
            Some(i) => Some(&self.recent[i]),
            None => None,
        }
    }

    pub fn is_full(&self) -> (r: bool)
        ensures
            r == (self.recent@.len() >= MAX_RECENT),
    {
        self.recent.len() >= MAX_RECENT
    }

    /// Removes every station with this address.
    pub fn forget(&mut self, url: &str)
        ensures
            final(self).stations() == drop_url(old(self).stations(), url@),
            final(self).last_url == old(self).last_url,
            final(self).autoplay == old(self).autoplay,
            old(self).wf() ==> final(self).wf(),
    {
        let ghost m = self.stations();
        let mut old_list: Vec<Station> = Vec::new();
        std::mem::swap(&mut old_list, &mut self.recent);
        let mut kept: Vec<Station> = Vec::new();
        let n = old_list.len();
        let mut i: usize = 0;
        while i < n
            invariant
                n == old_list@.len(),
                m == old_list@.map_values(|s: Station| s@),
                i <= n,
                kept@.map_values(|s: Station| s@) == drop_url(m.take(i as int), url@),
            decreases n - i,
        {
            proof {
                assert(m.take(i + 1).drop_last() =~= m.take(i as int));
            }
            if !same_text(old_list[i].url.as_str(), url) {
                let st = Station { url: old_list[i].url.clone(), name: copy_name(&old_list[i].name) };
                kept.push(st);
                proof {
                    assert(kept@.map_values(|s: Station| s@) =~= drop_url(m.take(i as int), url@).push(
                        m[i as int],
                    ));
                }
            }
            i = i + 1;
        }
        proof {
            assert(m.take(n as int) =~= m);
            lemma_drop_url(m, url@);
        }
        self.recent = kept;
    }

    /// Records `url` as the last one and moves it to the top of the list.
    /// A station we already know is moved — not added a second time.
    pub fn remember(&mut self, url: &str)
        ensures
            trimmed(url@).len() == 0 ==> *final(self) == *old(self),
            trimmed(url@).len() > 0 ==> final(self).last_url@ == trimmed(url@),
            trimmed(url@).len() > 0 ==> final(self).stations() == remembered(
                old(self).stations(),
                trimmed(url@),
            ),
            final(self).autoplay == old(self).autoplay,
            old(self).wf() ==> final(self).wf(),
    {
        let u = trim(url);
        if u.is_empty() {
            return;
        }
        let ghost m = self.stations();
        self.last_url = u.to_owned();
        let name = match self.station(u) {
            Some(s) => copy_name(&s.name),
            None => None,
        };
        proof {
            lemma_position(m, u@);
        }
        assert(opt_text(name) == known_name(m, u@));
        self.forget(u);
        let ghost d = self.stations();
        let st = Station { url: u.to_owned(), name };
        self.recent.insert(0, st);
        proof {
            assert(self.stations() =~= seq![(u@, known_name(m, u@))] + d);
        }
        let ghost l = self.stations();
        self.recent.truncate(MAX_RECENT);
        proof {
            lemma_drop_url(m, u@);
            if l.len() > MAX_RECENT {
                assert(self.stations() =~= l.take(MAX_RECENT as int));
            } else {
                assert(self.stations() =~= l);
            }
            if distinct_urls(m) {
                assert(distinct_urls(l)) by {
                    assert forall|i: int, j: int|
                        0 <= i < l.len() && 0 <= j < l.len() && i != j implies (#[trigger] l[i]).0
                        != (#[trigger] l[j]).0 by {
                        if i > 0 && j > 0 {
                            assert(l[i] == d[i - 1] && l[j] == d[j - 1]);
                        } else if i == 0 {
                            assert(l[j] == d[j - 1]);
                        } else {
                            assert(l[i] == d[i - 1]);
                        }
                    }
                }
                let f = self.stations();
                assert forall|i: int, j: int|
                    0 <= i < f.len() && 0 <= j < f.len() && i != j implies (#[trigger] f[i]).0 != (
                    #[trigger] f[j]).0 by {
                    assert(f[i] == l[i] && f[j] == l[j]);
                }
            }
        }
    }

    /// Appends a station at the end of the list, keeping its name if we were given
    /// one. Returns `false` for a station we already know, or once the list is full.
    pub fn add(&mut self, url: &str, name: Option<&str>) -> (r: bool)
        ensures
            r == admits(old(self).stations(), trimmed(url@)),
            r ==> final(self).stations() == old(self).stations().push(
                (trimmed(url@), clean_name(opt_str(name))),
            ),
            !r ==> *final(self) == *old(self),
            final(self).last_url == old(self).last_url,
            final(self).autoplay == old(self).autoplay,
            old(self).wf() ==> final(self).wf(),
    {
        let u = trim(url);
        proof {
            lemma_trimmed_idempotent(url@);
        }
        if !is_stream_url(u) || self.is_full() || self.station(u).is_some() {
            proof {
                lemma_position(self.stations(), u@);
            }
            return false;
        }
        proof {
            lemma_position(self.stations(), u@);
        }
        let kept_name = match name {
            Some(n) => {
                let t = trim(n);
                if t.is_empty() {
                    None
                } else {
                    Some(t.to_owned())
                }
            },
            None => None,
        };
        let ghost m = self.stations();
        self.recent.push(Station { url: u.to_owned(), name: kept_name });
        proof {
            let f = self.stations();
            assert(f =~= m.push((u@, clean_name(opt_str(name)))));
            if old(self).wf() {
                assert forall|i: int, j: int|
                    0 <= i < f.len() && 0 <= j < f.len() && i != j implies (#[trigger] f[i]).0 != (
                    #[trigger] f[j]).0 by {
                    if i < m.len() && j < m.len() {
                        assert(f[i] == m[i] && f[j] == m[j]);
                    } else if i < m.len() {
                        assert(f[i] == m[i]);
                    } else {
                        assert(f[j] == m[j]);
                    }
                }
            }
        }
        true
    }

    /// Names the station as soon as the ICY metadata sends it.
    /// Returns `true` only when something changed, so we do not save every frame.
    pub fn name_station(&mut self, url: &str, name: &str) -> (r: bool)
        ensures
            r == renamed(old(self).stations(), url@, name@) is Some,
            r ==> final(self).stations() == renamed(old(self).stations(), url@, name@)->0,
            !r ==> *final(self) == *old(self),
            final(self).last_url == old(self).last_url,
            final(self).autoplay == old(self).autoplay,
            old(self).wf() ==> final(self).wf(),
    {
        let t = trim(name);
        if t.is_empty() {
            return false;
        }
        let i = match self.find(url) {
            Some(i) => i,
            None => return false,
        };
        let ghost m = self.stations();
        assert(m[i as int] == self.recent@[i as int]@);
        match &self.recent[i].name {
            Some(n) => {
                if same_text(n.as_str(), t) {
                    return false;
                }
            },
            None => {},
        }
        let st = Station { url: self.recent[i].url.clone(), name: Some(t.to_owned()) };
        self.recent.set(i, st);
        proof {
            let f = self.stations();
            assert(f =~= m.update(i as int, (m[i as int].0, Some(t@))));
            if old(self).wf() {
                assert forall|a: int, b: int|
                    0 <= a < f.len() && 0 <= b < f.len() && a != b implies (#[trigger] f[a]).0 != (
                    #[trigger] f[b]).0 by {
                    assert(f[a].0 == m[a].0 && f[b].0 == m[b].0);
                }
            }
        }
        true
    }

    /// The list as plain text, one stream per line.
    pub fn stations_text(&self) -> (r: String)
        ensures
            r@ == lines_text(self.stations()),
    {
        let ghost m = self.stations();
        let nl = newline_text();
        let mut text = String::new();
        let mut i: usize = 0;
        while i < self.recent.len()
            invariant
                m == self.stations(),
                nl@ == seq!['\n'],
                i <= self.recent@.len(),
                text@ == lines_text(m.take(i as int)),
            decreases self.recent@.len() - i,
        {
            proof {
                assert(m.take(i + 1).drop_last() =~= m.take(i as int));
                assert(m[i as int] == self.recent@[i as int]@);
            }
            text.append(self.recent[i].url.as_str());
            text.append(nl);
            i = i + 1;
        }
        assert(m.take(self.recent@.len() as int) =~= m);
        text
    }

    /// One line of an imported list: `None` when the list is full and the
    /// import stops, otherwise whether the line added a station.
    fn import_line(&mut self, line: &str) -> (r: Option<bool>)
        ensures
            r is None ==> *final(self) == *old(self) && old(self).recent@.len() >= MAX_RECENT,
            r matches Some(b) ==> b == admits(old(self).stations(), trimmed(line@)),
            r matches Some(b) ==> (b ==> final(self).stations() == old(self).stations().push(
                (trimmed(line@), None),
            )),
            r matches Some(b) ==> (!b ==> *final(self) == *old(self)),
            final(self).last_url == old(self).last_url,
            final(self).autoplay == old(self).autoplay,
            old(self).wf() ==> final(self).wf(),
    {
        let t = trim(line);
        let tv = chars_of(t);
        // "#" allows comments in a list written by hand.
        if tv.len() > 0 && tv[0] == '#' {
            proof {
                if is_stream(t@) {
                    if starts_with(t@, http_scheme()) {
                        assert(t@.take(7)[0] == t@[0]);
                    } else {
                        assert(t@.take(8)[0] == t@[0]);
                    }
                }
            }
            return Some(false);
        }
        if self.is_full() {
            return None;
        }
        proof {
            lemma_trimmed_idempotent(line@);
        }
        Some(self.add(t, None))
    }

    /// Reads such a list. Unknown stations are appended in file order; anything we
    /// already know is left untouched, along with its name.
    /// Returns how many were added.
    pub fn import_text(&mut self, text: &str) -> (r: usize)
        ensures
            (final(self).stations(), r as nat) == import_lines(
                old(self).stations(),
                split_on(text@, '\n'),
            ),
            final(self).last_url == old(self).last_url,
            final(self).autoplay == old(self).autoplay,
            old(self).wf() ==> final(self).wf(),
    {
        let v = chars_of(text);
        let n = v.len();
        let ghost m0 = self.stations();
        let ghost mut done: Seq<Seq<char>> = seq![];
        let mut added: usize = 0;
        let mut start: usize = 0;
        let mut i: usize = 0;
        let mut stopped = false;
        proof {
            assert(text@.take(0) =~= Seq::<char>::empty());
            assert(text@.subrange(0, 0) =~= Seq::<char>::empty());
        }
        while i < n && !stopped
            invariant
                v@ == text@,
                n == v.len(),
                start <= i <= n,
                !stopped ==> split_on(text@.take(i as int), '\n') == done.push(
                    text@.subrange(start as int, i as int),
                ),
                !stopped ==> (self.stations(), added as nat) == import_lines(m0, done),
                stopped ==> (self.stations(), added as nat) == import_lines(
                    m0,
                    split_on(text@, '\n'),
                ),
                self.recent@.len() == m0.len() + added,
                self.last_url == old(self).last_url,
                self.autoplay == old(self).autoplay,
                m0 == old(self).stations(),
                old(self).wf() ==> self.wf(),
            decreases n - i + if stopped { 0int } else { 1int },
        {
            let ghost before = text@.take(i as int);
            proof {
                assert(text@.take(i + 1).drop_last() =~= before);
                assert(text@.take(i + 1).last() == v@[i as int]);
            }
            if v[i] == '\n' {
                let line = text.substring_char(start, i);
                match self.import_line(line) {
                    None => {
                        proof {
                            lemma_split_prefix(text@, '\n', i as int);
                            let all = split_on(text@, '\n');
                            assert(all.take(done.len() as int) =~= done);
                            assert(all =~= done + all.skip(done.len() as int));
                            lemma_import_full(m0, done, all.skip(done.len() as int));
                        }
                        stopped = true;
                    },
                    Some(b) => {
                        proof {
                            assert(self.stations().len() == self.recent@.len());
                            assert(old(self).stations().len() == old(self).recent@.len());
                        }
                        if b {
                            added = added + 1;
                        }
                        proof {
                            assert(done.push(line@).drop_last() =~= done);
                            assert(text@.subrange(i + 1, i + 1) =~= Seq::<char>::empty());
                            done = done.push(line@);
                        }
                        start = i + 1;
                    },
                }
            } else {
                proof {
                    let p = done.push(text@.subrange(start as int, i as int));
                    assert(text@.subrange(start as int, i as int).push(v@[i as int]) =~= text@.subrange(
                        start as int,
                        i + 1,
                    ));
                    assert(p.update(p.len() - 1, p.last().push(v@[i as int])) =~= done.push(
                        text@.subrange(start as int, i + 1),
                    ));
                }
            }
            i = i + 1;
        }
        if !stopped {
            proof {
                assert(text@.take(n as int) =~= text@);
            }
            let line = text.substring_char(start, n);
            match self.import_line(line) {
                None => {
                    proof {
                        assert(done.push(line@).drop_last() =~= done);
                    }
                },
                Some(b) => {
                    if b {
                        added = added + 1;
                    }
                    proof {
                        assert(done.push(line@).drop_last() =~= done);
                    }
                },
            }
        }
        added
    }
}

/// `"\n"` as a literal.
fn newline_text() -> (r: &'static str)
    ensures
        r@ == seq!['\n'],
{
    proof {
        reveal_strlit("\n");
    }
    let r = "\n";
    assert(r@ =~= seq!['\n']);
    r
}

// ---------------------------------------------------------------- laws

/// An address that survives being written out and read back: a stream address
/// without surrounding whitespace and without a line break inside it.
pub open spec fn exportable(u: Seq<char>) -> bool {
    &&& is_stream(u)
    &&& trimmed(u) == u
    &&& forall|k: int| 0 <= k < u.len() ==> u[k] != '\n'
}

/// The addresses of the list, without their names.
pub open spec fn unnamed(m: Seq<StationView>) -> Seq<StationView> {
    m.map_values(|s: StationView| (s.0, None::<Seq<char>>))
}

proof fn lemma_split_lines_text(m: Seq<StationView>)
    requires
        forall|i: int| 0 <= i < m.len() ==> exportable(#[trigger] m[i].0),
    ensures
        split_on(lines_text(m), '\n') == m.map_values(|s: StationView| s.0).push(seq![]),
    decreases m.len(),
{
    if m.len() == 0 {
        assert(split_on(lines_text(m), '\n') =~= seq![seq![]]);
        assert(m.map_values(|s: StationView| s.0).push(seq![]) =~= seq![seq![]]);
    } else {
        let init = m.drop_last();
        assert forall|i: int| 0 <= i < init.len() implies exportable(#[trigger] init[i].0) by {
            assert(init[i] == m[i]);
        }
        lemma_split_lines_text(init);
        let u = m.last().0;
        assert(exportable(m[m.len() - 1].0));
        assert(m[m.len() - 1] == m.last());
        let a = lines_text(init) + u;
        lemma_split_append_plain(lines_text(init), u, '\n');
        assert(lines_text(m) =~= a + seq!['\n']);
        assert((a + seq!['\n']).drop_last() =~= a);
        assert(seq![] + u =~= u);
        assert(split_on(lines_text(m), '\n') =~= m.map_values(|s: StationView| s.0).push(seq![]));
    }
}

proof fn lemma_import_exported(m: Seq<StationView>)
    requires
        distinct_urls(m),
        m.len() <= MAX_RECENT,
        forall|i: int| 0 <= i < m.len() ==> exportable(#[trigger] m[i].0),
    ensures
        import_lines(seq![], m.map_values(|s: StationView| s.0)) == (unnamed(m), m.len()),
    decreases m.len(),
{
    let us = m.map_values(|s: StationView| s.0);
    if m.len() == 0 {
        assert(us =~= Seq::<Seq<char>>::empty());
        assert(unnamed(m) =~= Seq::<StationView>::empty());
    } else {
        let init = m.drop_last();
        assert forall|i: int| 0 <= i < init.len() implies exportable(#[trigger] init[i].0) by {
            assert(init[i] == m[i]);
        }
        assert(distinct_urls(init)) by {
            assert forall|i: int, j: int|
                0 <= i < init.len() && 0 <= j < init.len() && i != j implies (#[trigger] init[i]).0
                != (#[trigger] init[j]).0 by {
                assert(init[i] == m[i] && init[j] == m[j]);
            }
        }
        lemma_import_exported(init);
        assert(us.drop_last() =~= init.map_values(|s: StationView| s.0));
        let u = m.last().0;
        assert(m[m.len() - 1] == m.last());
        assert(exportable(m[m.len() - 1].0));
        let b = unnamed(init);
        assert(!knows(b, u)) by {
            if knows(b, u) {
                let i = choose|i: int| 0 <= i < b.len() && (#[trigger] b[i]).0 == u;
                assert(b[i].0 == m[i].0);
            }
        }
        assert(unnamed(m) =~= b.push((u, None)));
    }
}

proof fn lemma_lines_text_unnamed(m: Seq<StationView>)
    ensures
        lines_text(unnamed(m)) == lines_text(m),
    decreases m.len(),
{
    if m.len() > 0 {
        lemma_lines_text_unnamed(m.drop_last());
        assert(unnamed(m).drop_last() =~= unnamed(m.drop_last()));
    }
}

/// The central promise of the list file: writing the list out with
/// `stations_text` and importing that text into an empty list gives back
/// every address, in the same order, as many as there were, and the text
/// written from the result is the text that was read.
pub proof fn law_export_then_import(m: Seq<StationView>)
    requires
        distinct_urls(m),
        m.len() <= MAX_RECENT,
        forall|i: int| 0 <= i < m.len() ==> exportable(#[trigger] m[i].0),
    ensures
        import_lines(seq![], split_on(lines_text(m), '\n')) == (unnamed(m), m.len()),
        lines_text(unnamed(m)) == lines_text(m),
{
    lemma_split_lines_text(m);
    lemma_import_exported(m);
    let us = m.map_values(|s: StationView| s.0);
    assert(us.push(seq![]).drop_last() =~= us);
    assert(!is_stream(seq![]));
    lemma_trimmed_of_bare(seq![]);
    lemma_lines_text_unnamed(m);
}

/// Playing a station puts it at the top of the list with the name we knew for
/// it, and nowhere else in the list.
pub proof fn law_remember_moves_to_top(m: Seq<StationView>, u: Seq<char>)
    ensures
        remembered(m, u).len() >= 1,
        remembered(m, u).len() <= MAX_RECENT,
        remembered(m, u)[0] == (u, known_name(m, u)),
        forall|k: int| 1 <= k < remembered(m, u).len() ==> (#[trigger] remembered(m, u)[k]).0 != u,
        distinct_urls(m) ==> distinct_urls(remembered(m, u)),
{
    lemma_drop_url(m, u);
    let d = drop_url(m, u);
    let l = seq![(u, known_name(m, u))] + d;
    let r = remembered(m, u);
    assert(r[0] == l[0]);
    assert forall|k: int| 1 <= k < r.len() implies (#[trigger] r[k]).0 != u by {
        assert(r[k] == l[k] && l[k] == d[k - 1]);
    }
    if distinct_urls(m) {
        assert forall|i: int, j: int|
            0 <= i < r.len() && 0 <= j < r.len() && i != j implies (#[trigger] r[i]).0 != (
            #[trigger] r[j]).0 by {
            assert(r[i] == l[i] && r[j] == l[j]);
            if i > 0 && j > 0 {
                assert(l[i] == d[i - 1] && l[j] == d[j - 1]);
            } else if i == 0 {
                assert(l[j] == d[j - 1]);
            } else {
                assert(l[i] == d[i - 1]);
            }
        }
    }
}

/// Dropping an address from a list that does not start with it keeps the
/// first station first.
proof fn lemma_drop_url_front(m: Seq<StationView>, u: Seq<char>)
    requires
        m.len() > 0,
    ensures
        drop_url(m, u) == if m[0].0 == u {
            drop_url(m.drop_first(), u)
        } else {
            seq![m[0]] + drop_url(m.drop_first(), u)
        },
    decreases m.len(),
{
    if m.len() == 1 {
        assert(m.drop_last() =~= Seq::<StationView>::empty());
        assert(m.drop_first() =~= Seq::<StationView>::empty());
        assert(m.last() == m[0]);
        if m[0].0 != u {
            assert(seq![m[0]] + Seq::<StationView>::empty() =~= seq![m[0]]);
            assert(Seq::<StationView>::empty().push(m[0]) =~= seq![m[0]]);
        }
    } else {
        let init = m.drop_last();
        lemma_drop_url_front(init, u);
        assert(init.drop_first() =~= m.drop_first().drop_last());
        assert(init[0] == m[0]);
        assert(m.drop_first().last() == m.last());
        let d = drop_url(m.drop_first().drop_last(), u);
        if m[0].0 != u && m.last().0 != u {
            assert((seq![m[0]] + d).push(m.last()) =~= seq![m[0]] + d.push(m.last()));
        }
    }
}

/// Playing a station keeps every other station in its order: below the top,
/// the list is the old list without that address, in the old order, cut to
/// the size of the list. In particular the old top station, when it is another
/// one, comes second.
pub proof fn law_remember_keeps_the_order(m: Seq<StationView>, u: Seq<char>)
    ensures
        remembered(m, u).drop_first() == if drop_url(m, u).len() < MAX_RECENT {
            drop_url(m, u)
        } else {
            drop_url(m, u).take(MAX_RECENT - 1)
        },
        m.len() > 0 && m[0].0 != u ==> remembered(m, u).len() >= 2 && remembered(m, u)[1] == m[0],
{
    let d = drop_url(m, u);
    let l = seq![(u, known_name(m, u))] + d;
    let r = remembered(m, u);
    if l.len() <= MAX_RECENT {
        assert(r.drop_first() =~= d);
    } else {
        assert(r.drop_first() =~= d.take(MAX_RECENT - 1));
    }
    if m.len() > 0 && m[0].0 != u {
        lemma_drop_url_front(m, u);
        assert(d[0] == m[0]);
        assert(r[1] == l[1]);
    }
}

/// Naming a station we know with a name it does not have yet stores the
/// trimmed name on that station and touches nothing else; a blank name or an
/// unknown address changes nothing, and naming it again with the same name
/// changes nothing either.
pub proof fn law_naming_renames(m: Seq<StationView>, u: Seq<char>, n: Seq<char>)
    ensures
        ({
            let p = position(m, u);
            let t = trimmed(n);
            p >= 0 && t.len() > 0 && m[p].1 != Some(t) ==> renamed(m, u, n) == Some(
                m.update(p, (u, Some(t))),
            )
        }),
        trimmed(n).len() == 0 || !knows(m, u) ==> renamed(m, u, n) is None,
        renamed(m, u, n) matches Some(r) ==> {
            &&& r.len() == m.len()
            &&& r[position(m, u)] == (u, Some(trimmed(n)))
            &&& forall|i: int| 0 <= i < m.len() && i != position(m, u) ==> #[trigger] r[i] == m[i]
            &&& renamed(r, u, n) is None
        },
{
    lemma_position(m, u);
    let p = position(m, u);
    if let Some(r) = renamed(m, u, n) {
        assert(m[p].0 == u);
        assert(r[p] == (u, Some(trimmed(n))));
        assert(first_at(r, u, p)) by {
            assert forall|j: int| 0 <= j < p implies (#[trigger] r[j]).0 != u by {
                assert(r[j] == m[j]);
            }
        }
        lemma_first_at_unique(r, u, p);
    }
}

/// An import only appends: every station the list held before stays where it
/// was, with its name, and the count is the number of stations appended.
pub proof fn law_import_only_appends(m: Seq<StationView>, lines: Seq<Seq<char>>)
    ensures
        import_lines(m, lines).0.len() == m.len() + import_lines(m, lines).1,
        import_lines(m, lines).0.take(m.len() as int) == m,
    decreases lines.len(),
{
    if lines.len() == 0 {
        assert(m.take(m.len() as int) =~= m);
    } else {
        law_import_only_appends(m, lines.drop_last());
        let st = import_lines(m, lines.drop_last());
        if admits(st.0, trimmed(lines.last())) {
            assert(st.0.push((trimmed(lines.last()), None)).take(m.len() as int) =~= st.0.take(
                m.len() as int,
            ));
        }
    }
}

} // verus!
