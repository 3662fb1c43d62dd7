//! The favorites store: an in-memory collection of favourite images keyed
//! by path, each with tags and the time it was added.
//!
//! Entries are held in a vector whose paths are pairwise distinct; reading
//! and writing the collection on disk is the calling layer's business.

use vstd::prelude::*;
use vstd::string::StringExecFns;
use vstd::pervasive::VecAdditionalExecFns;
use vstd::seq_lib::group_to_multiset_ensures;
use crate::strings::lower_of;
use crate::strings::to_lowercase;
use crate::strings::spec_str_contains;
use crate::strings::str_contains;
use crate::strings::spec_str_le;
use crate::strings::str_le;

verus! {

/// One favourite image: its path, its tags, and when it was added, as a
/// Unix timestamp in seconds.
#[derive(Debug, Clone, PartialEq)]
pub struct FavoriteImage {
    /// The image's path; the collection's key.
    pub path: String,
    /// The tags attached to the entry.
    pub tags: Vec<String>,
    /// When the entry was added, in seconds since the Unix epoch.
    pub added_at: i64,
}

/// What an entry says, as plain values: path text, tag texts, timestamp.
pub open spec fn fav_view(f: FavoriteImage) -> (Seq<char>, Seq<Seq<char>>, int) {
    (f.path@, f.tags.deep_view(), f.added_at as int)
}

/// The entries' contents, in order.
pub open spec fn favs_view(s: Seq<FavoriteImage>) -> Seq<(Seq<char>, Seq<Seq<char>>, int)> {
    s.map_values(|f: FavoriteImage| fav_view(f))
}

/// The index of the first entry with the given path, or -1.
pub open spec fn spec_index_of(s: Seq<FavoriteImage>, path: Seq<char>) -> int
    decreases s.len(),
{
    if s.len() == 0 {
        -1
    } else if s[0].path@ == path {
        0
    } else {
        let r = spec_index_of(s.drop_first(), path);
        if r >= 0 {
            r + 1
        } else {
            -1
        }
    }
}

/// What `spec_index_of` finds: a first match, or proof there is none.
pub proof fn lemma_index_of_props(s: Seq<FavoriteImage>, path: Seq<char>)
    ensures
        -1 <= spec_index_of(s, path) < s.len(),
        spec_index_of(s, path) == -1 ==> forall|j: int|
            0 <= j < s.len() ==> (#[trigger] s[j]).path@ != path,
        spec_index_of(s, path) >= 0 ==> s[spec_index_of(s, path)].path@ == path,
    decreases s.len(),
{
    if s.len() > 0 && s[0].path@ != path {
        lemma_index_of_props(s.drop_first(), path);
        assert forall|j: int| 1 <= j < s.len() implies s.drop_first()[j - 1] == s[j] by {}
    }
}

/// A scan that found its first match at `i` agrees with `spec_index_of`.
pub proof fn lemma_index_of_first(s: Seq<FavoriteImage>, path: Seq<char>, i: int)
    requires
        0 <= i < s.len(),
        s[i].path@ == path,
        forall|j: int| 0 <= j < i ==> (#[trigger] s[j]).path@ != path,
    ensures
        spec_index_of(s, path) == i,
    decreases i,
{
    if i > 0 {
        lemma_index_of_first(s.drop_first(), path, i - 1);
    }
}

/// A scan that found no match agrees with `spec_index_of`.
pub proof fn lemma_index_of_none(s: Seq<FavoriteImage>, path: Seq<char>)
    requires
        forall|j: int| 0 <= j < s.len() ==> (#[trigger] s[j]).path@ != path,
    ensures
        spec_index_of(s, path) == -1,
    decreases s.len(),
{
    if s.len() > 0 {
        lemma_index_of_none(s.drop_first(), path);
    }
}

/// Whether one search tag matches one of the entry's tags: the entry's tag,
/// lower-cased, contains the search tag, lower-cased.
pub open spec fn spec_tag_match_one(f: FavoriteImage, t: String) -> bool {
    exists|fi: int| 0 <= fi < f.tags@.len() && spec_str_contains(
        lower_of((#[trigger] f.tags@[fi])@),
        lower_of(t@),
    )
}

/// Whether any search tag matches any of the entry's tags.
pub open spec fn spec_tag_match(f: FavoriteImage, tags: Seq<String>) -> bool {
    exists|si: int| 0 <= si < tags.len() && spec_tag_match_one(f, #[trigger] tags[si])
}

/// The entries among `s` that the search tags match, in order.
pub open spec fn spec_matching(s: Seq<FavoriteImage>, tags: Seq<String>) -> Seq<FavoriteImage>
    decreases s.len(),
{
    if s.len() == 0 {
        Seq::empty()
    } else {
        spec_matching(s.drop_last(), tags) + (if spec_tag_match(s.last(), tags) {
            seq![s.last()]
        } else {
            Seq::empty()
        })
    }
}

/// Whether some entry carries the tag text `t`.
pub open spec fn spec_has_tag(s: Seq<FavoriteImage>, t: Seq<char>) -> bool {
    exists|fi: int, ti: int| 0 <= fi < s.len() && 0 <= ti < s[fi].tags@.len()
        && (#[trigger] s[fi].tags@[ti])@ == t
}

/// Whether some string in the list has the text `t`.
pub open spec fn spec_in_list(l: Seq<String>, t: Seq<char>) -> bool {
    exists|i: int| 0 <= i < l.len() && (#[trigger] l[i])@ == t
}

/// The favourites collection.
#[derive(Debug, Clone, PartialEq)]
pub struct FavoritesConfig {
    /// The entries, with pairwise distinct paths.
    pub favorites: Vec<FavoriteImage>,
}

impl Default for FavoritesConfig {
    /// An empty, well-formed collection.
    fn default() -> (r: FavoritesConfig)
        ensures
            r.wf(),
            r.favorites@.len() == 0,
    {
        FavoritesConfig { favorites: Vec::new() }
    }
}

impl FavoritesConfig {
    /// Well-formed: no two entries share a path.
    pub open spec fn wf(self) -> bool {
        forall|i: int, j: int| 0 <= i < j < self.favorites@.len() ==> (#[trigger] self.favorites@[
            i]).path@ != (#[trigger] self.favorites@[j]).path@
    }

    /// An empty, well-formed collection.
    pub fn new() -> (r: FavoritesConfig)
        ensures
            r.wf(),
            r.favorites@.len() == 0,
    {
        FavoritesConfig { favorites: Vec::new() }
    }

    /// Decides well-formedness: true exactly when no two entries share a
    /// path. Callers that build a collection from outside data check this
    /// before using the mutating operations.
    pub fn check_wf(&self) -> (r: bool)
        ensures
            r == self.wf(),
    {
        let n = self.favorites.len();
        let mut i: usize = 0;
        while i < n
            invariant
                n == self.favorites@.len(),
                0 <= i <= n,
                forall|a: int, b: int| 0 <= a < b < n && a < i ==> (#[trigger] self.favorites@[
                    a]).path@ != (#[trigger] self.favorites@[b]).path@,
            decreases n - i,
        {
            let mut j: usize = i + 1;
            while j < n
                invariant
                    n == self.favorites@.len(),
                    i < j <= n || (i + 1 == j && j > n),
                    i < n,
                    forall|b: int| i < b < j ==> (#[trigger] self.favorites@[b]).path@
                        != self.favorites@[i as int].path@,
                decreases n - j,
            {
                if crate::strings::str_eq(
                    self.favorites[i].path.as_str(),
                    self.favorites[j].path.as_str(),
                ) {
                    return false;
                }
                j += 1;
            }
            i += 1;
        }
        true
    }

    /// Finds the index of the entry with this path, if any.
    fn find_index(&self, path: &str) -> (r: Option<usize>)
        ensures
            match r {
                Some(i) => spec_index_of(self.favorites@, path@) == i && i
                    < self.favorites@.len(),
                None => spec_index_of(self.favorites@, path@) == -1,
            },
    {
        let n = self.favorites.len();
        let mut i: usize = 0;
        while i < n
            invariant
                n == self.favorites@.len(),
                0 <= i <= n,
                forall|j: int| 0 <= j < i ==> (#[trigger] self.favorites@[j]).path@ != path@,
            decreases n - i,
        {
            if crate::strings::str_eq(self.favorites[i].path.as_str(), path) {
                proof {
                    lemma_index_of_first(self.favorites@, path@, i as int);
                }
                return Some(i);
            }
            i += 1;
        }
        proof {
            lemma_index_of_none(self.favorites@, path@);
        }
        None
    }

    /// Whether the path is in the collection.
    pub fn is_favorite(&self, path: &str) -> (r: bool)
        ensures
            r == (spec_index_of(self.favorites@, path@) >= 0),
    {
        match self.find_index(path) {
            Some(_) => true,
            None => false,
        }
    }

    /// Adds the path with the given tags, replacing any entry that already
    /// carries it; the entry is stamped with the current time, about which
    /// nothing is promised.
    pub fn add_favorite(&mut self, path: String, tags: Vec<String>)
        requires
            old(self).wf(),
        ensures
            final(self).wf(),
            ({
                let idx = spec_index_of(old(self).favorites@, path@);
                let favs = final(self).favorites@;
                if idx >= 0 {
                    &&& favs.len() == old(self).favorites@.len()
                    &&& (forall|j: int| 0 <= j < favs.len() && j != idx ==> favs[j] == old(
                        self,
                    ).favorites@[j])
                    &&& favs[idx].path == path
                    &&& favs[idx].tags == tags
                } else {
                    &&& favs.len() == old(self).favorites@.len() + 1
                    &&& (forall|j: int| 0 <= j < old(self).favorites@.len() ==> favs[j] == old(
                        self,
                    ).favorites@[j])
                    &&& favs[favs.len() - 1].path == path
                    &&& favs[favs.len() - 1].tags == tags
                }
            }),
    {
        let now = unix_timestamp();
        proof {
            lemma_index_of_props(self.favorites@, path@);
        }
        let entry = FavoriteImage { path, tags, added_at: now };
        match self.find_index(entry.path.as_str()) {
            Some(i) => {
                self.favorites.set(i, entry);
            },
            None => {
                self.favorites.push(entry);
            },
        }
    }

    /// Removes the entry with this path; says whether one was there.
    pub fn remove_favorite(&mut self, path: &str) -> (r: bool)
        requires
            old(self).wf(),
        ensures
            final(self).wf(),
            r == (spec_index_of(old(self).favorites@, path@) >= 0),
            forall|j: int| 0 <= j < final(self).favorites@.len()
                ==> (#[trigger] final(self).favorites@[j]).path@ != path@,
            ({
                let idx = spec_index_of(old(self).favorites@, path@);
                if idx >= 0 {
                    final(self).favorites@ == old(self).favorites@.remove(idx)
                } else {
                    final(self).favorites@ == old(self).favorites@
                }
            }),
    {
        proof {
            lemma_index_of_props(self.favorites@, path@);
        }
        match self.find_index(path) {
            Some(i) => {
                let ghost before = self.favorites@;
                let ghost idx = i as int;
                self.favorites.remove(i);
                proof {
                    assert forall|j: int| 0 <= j < self.favorites@.len() implies (
                    #[trigger] self.favorites@[j]).path@ != path@ by {
                        if j < idx {
                            assert(self.favorites@[j] == before[j]);
                        } else {
                            assert(self.favorites@[j] == before[j + 1]);
                        }
                    }
                }
                true
            },
            None => false,
        }
    }

    /// All entries, newest first by timestamp; the contents are exactly the
    /// collection's contents.
    pub fn get_all(&self) -> (r: Vec<FavoriteImage>)
        ensures
            favs_view(r@).to_multiset() == favs_view(self.favorites@).to_multiset(),
            r@.len() == self.favorites@.len(),
            forall|i: int, j: int| 0 <= i < j < r@.len() ==> (#[trigger] r@[i]).added_at >= (
            #[trigger] r@[j]).added_at,
    {
        let n = self.favorites.len();
        let mut copy: Vec<FavoriteImage> = Vec::new();
        let mut i: usize = 0;
        proof {
            assert(favs_view(copy@) =~= favs_view(self.favorites@.take(0)));
        }
        while i < n
            invariant
                n == self.favorites@.len(),
                0 <= i <= n,
                copy@.len() == i,
                favs_view(copy@) == favs_view(self.favorites@.take(i as int)),
            decreases n - i,
        {
            let ghost copy_before = copy@;
            let e = duplicate_entry(&self.favorites[i]);
            copy.push(e);
            proof {
                lemma_favs_view_push(copy_before, e);
                lemma_take_push(self.favorites@, i as int);
                lemma_favs_view_push(self.favorites@.take(i as int), self.favorites@[i as int]);
                assert(favs_view(copy@) =~= favs_view(self.favorites@.take(i as int + 1)));
            }
            i += 1;
        }
        proof {
            assert(self.favorites@.take(n as int) =~= self.favorites@);
        }
        sort_favs_desc(copy)
    }

    /// The entries whose tags match any of the search tags, newest first;
    /// with no search tags, everything.
    pub fn search_by_tags(&self, tags: &[String]) -> (r: Vec<FavoriteImage>)
        ensures
            ({
                let sel = if tags@.len() == 0 {
                    self.favorites@
                } else {
                    spec_matching(self.favorites@, tags@)
                };
                &&& favs_view(r@).to_multiset() == favs_view(sel).to_multiset()
                &&& r@.len() == sel.len()
            }),
            forall|i: int, j: int| 0 <= i < j < r@.len() ==> (#[trigger] r@[i]).added_at >= (
            #[trigger] r@[j]).added_at,
    {
        if tags.len() == 0 {
            return self.get_all();
        }
        let n = self.favorites.len();
        let mut matched: Vec<FavoriteImage> = Vec::new();
        let mut i: usize = 0;
        proof {
            assert(favs_view(matched@) =~= favs_view(
                spec_matching(self.favorites@.take(0), tags@),
            ));
        }
        while i < n
            invariant
                n == self.favorites@.len(),
                0 <= i <= n,
                matched@.len() == spec_matching(self.favorites@.take(i as int), tags@).len(),
                favs_view(matched@) == favs_view(
                    spec_matching(self.favorites@.take(i as int), tags@),
                ),
            decreases n - i,
        {
            proof {
                assert(self.favorites@.take(i as int + 1).drop_last() =~= self.favorites@.take(
                    i as int,
                ));
                assert(self.favorites@.take(i as int + 1).last() == self.favorites@[i as int]);
            }
            if entry_matches(&self.favorites[i], tags) {
                let ghost matched_before = matched@;
                let e = duplicate_entry(&self.favorites[i]);
                matched.push(e);
                proof {
                    lemma_favs_view_push(matched_before, e);
                    let prev = spec_matching(self.favorites@.take(i as int), tags@);
                    assert(spec_matching(self.favorites@.take(i as int + 1), tags@) =~= prev.push(
                        self.favorites@[i as int],
                    ));
                    lemma_favs_view_push(prev, self.favorites@[i as int]);
                    assert(favs_view(matched@) =~= favs_view(
                        spec_matching(self.favorites@.take(i as int + 1), tags@),
                    ));
                }
            } else {
                proof {
                    assert(spec_matching(self.favorites@.take(i as int + 1), tags@)
                        =~= spec_matching(self.favorites@.take(i as int), tags@));
                }
            }
            i += 1;
        }
        proof {
            assert(self.favorites@.take(n as int) =~= self.favorites@);
        }
        sort_favs_desc(matched)
    }

    /// Every distinct tag text in the collection, in ascending order.
    pub fn get_all_tags(&self) -> (r: Vec<String>)
        ensures
            forall|i: int| 0 <= i < r@.len() ==> spec_has_tag(
                self.favorites@,
                (#[trigger] r@[i])@,
            ),
            forall|fi: int, ti: int| 0 <= fi < self.favorites@.len() && 0 <= ti < (
            #[trigger] self.favorites@[fi]).tags@.len() ==> spec_in_list(
                r@,
                (#[trigger] self.favorites@[fi].tags@[ti])@,
            ),
            forall|i: int, j: int| 0 <= i < j < r@.len() ==> (#[trigger] r@[i])@ != (
            #[trigger] r@[j])@,
            forall|i: int, j: int| 0 <= i < j < r@.len() ==> spec_str_le(
                (#[trigger] r@[i])@,
                (#[trigger] r@[j])@,
            ),
    {
        let n = self.favorites.len();
        let mut found: Vec<String> = Vec::new();
        let mut fi: usize = 0;
        while fi < n
            invariant
                n == self.favorites@.len(),
                0 <= fi <= n,
                forall|k: int| 0 <= k < found@.len() ==> spec_has_tag(
                    self.favorites@,
                    (#[trigger] found@[k])@,
                ),
                forall|f: int, t: int| 0 <= f < fi && 0 <= t < (
                #[trigger] self.favorites@[f]).tags@.len() ==> spec_in_list(
                    found@,
                    (#[trigger] self.favorites@[f].tags@[t])@,
                ),
                forall|a: int, b: int| 0 <= a < b < found@.len() ==> (#[trigger] found@[a])@ != (
                #[trigger] found@[b])@,
            decreases n - fi,
        {
            let entry = &self.favorites[fi];
            let m = entry.tags.len();
            let mut ti: usize = 0;
            while ti < m
                invariant
                    n == self.favorites@.len(),
                    fi < n,
                    m == self.favorites@[fi as int].tags@.len(),
                    0 <= ti <= m,
                    forall|k: int| 0 <= k < found@.len() ==> spec_has_tag(
                        self.favorites@,
                        (#[trigger] found@[k])@,
                    ),
                    forall|f: int, t: int| 0 <= f < fi && 0 <= t < (
                    #[trigger] self.favorites@[f]).tags@.len() ==> spec_in_list(
                        found@,
                        (#[trigger] self.favorites@[f].tags@[t])@,
                    ),
                    forall|t: int| 0 <= t < ti ==> spec_in_list(
                        found@,
                        (#[trigger] self.favorites@[fi as int].tags@[t])@,
                    ),
                    forall|a: int, b: int| 0 <= a < b < found@.len() ==> (#[trigger] found@[a])@
                        != (#[trigger] found@[b])@,
                decreases m - ti,
            {
                let tag = &self.favorites[fi].tags[ti];
                if !list_contains(&found, tag.as_str()) {
                    let ghost found_before = found@;
                    found.push(tag.clone());
                    proof {
                        assert(forall|j: int| 0 <= j < found_before.len() ==> found@[j]
                            == found_before[j]);
                        assert((found@[found@.len() - 1])@ == (self.favorites@[
                            fi as int].tags@[ti as int])@);
                        assert(spec_has_tag(
                            self.favorites@,
                            (found@[found@.len() - 1])@,
                        ));
                        assert(spec_in_list(
                            found@,
                            (self.favorites@[fi as int].tags@[ti as int])@,
                        ));
                    }
                } else {
                    proof {
                        assert(spec_in_list(
                            found@,
                            (self.favorites@[fi as int].tags@[ti as int])@,
                        ));
                    }
                }
                ti += 1;
            }
            fi += 1;
        }
        let ghost found_view = found@;
        let r = sort_strings_asc(found);
        proof {
            broadcast use group_to_multiset_ensures;

            assert forall|i: int| 0 <= i < r@.len() implies spec_has_tag(
                self.favorites@,
                (#[trigger] r@[i])@,
            ) by {
                let s0 = r@[i];
                assert(r@.contains(s0));
                assert(found_view.to_multiset().count(s0) > 0);
                assert(found_view.contains(s0));
                let j = choose|j: int| 0 <= j < found_view.len() && found_view[j] == s0;
                assert(spec_has_tag(self.favorites@, (found_view[j])@));
            }
            assert forall|fi: int, ti: int| 0 <= fi < self.favorites@.len() && 0 <= ti < (
            #[trigger] self.favorites@[fi]).tags@.len() implies spec_in_list(
                r@,
                (#[trigger] self.favorites@[fi].tags@[ti])@,
            ) by {
                let t = (self.favorites@[fi].tags@[ti])@;
                assert(spec_in_list(found_view, t));
                let j = choose|j: int| 0 <= j < found_view.len() && (#[trigger] found_view[j])@
                    == t;
                let s0 = found_view[j];
                assert(found_view.contains(s0));
                assert(r@.to_multiset().count(s0) > 0);
                assert(r@.contains(s0));
                let k2 = choose|k2: int| 0 <= k2 < r@.len() && r@[k2] == s0;
                assert((r@[k2])@ == t);
            }
            assert(found_view.no_duplicates());
            found_view.lemma_multiset_has_no_duplicates();
            assert(forall|x: String| r@.to_multiset().contains(x) ==> r@.to_multiset().count(x)
                == 1);
            r@.lemma_multiset_has_no_duplicates_conv();
            assert forall|i: int, j: int| 0 <= i < j < r@.len() implies (#[trigger] r@[i])@ != (
            #[trigger] r@[j])@ by {
                assert(r@[i] != r@[j]);
                assert(r@.contains(r@[i]));
                assert(found_view.to_multiset().count(r@[i]) > 0);
                assert(found_view.contains(r@[i]));
                assert(r@.contains(r@[j]));
                assert(found_view.to_multiset().count(r@[j]) > 0);
                assert(found_view.contains(r@[j]));
                let a = choose|a: int| 0 <= a < found_view.len() && found_view[a] == r@[i];
                let b = choose|b: int| 0 <= b < found_view.len() && found_view[b] == r@[j];
                assert(a != b);
                assert((found_view[a])@ != (found_view[b])@);
            }
        }
        r
    }
}

/// Whether a string with this text is already in the list.
fn list_contains(l: &Vec<String>, t: &str) -> (r: bool)
    ensures
        r == spec_in_list(l@, t@),
{
    let n = l.len();
    let mut i: usize = 0;
    while i < n
        invariant
            n == l@.len(),
            0 <= i <= n,
            forall|j: int| 0 <= j < i ==> (#[trigger] l@[j])@ != t@,
        decreases n - i,
    {
        if crate::strings::str_eq(l[i].as_str(), t) {
            return true;
        }
        i += 1;
    }
    false
}

/// Whether any search tag matches any of the entry's tags.
fn entry_matches(f: &FavoriteImage, tags: &[String]) -> (r: bool)
    ensures
        r == spec_tag_match(*f, tags@),
{
    let sn = tags.len();
    let mut si: usize = 0;
    while si < sn
        invariant
            sn == tags@.len(),
            0 <= si <= sn,
            forall|j: int| 0 <= j < si ==> !spec_tag_match_one(*f, #[trigger] tags@[j]),
        decreases sn - si,
    {
        let needle = to_lowercase(tags[si].as_str());
        let fn_ = f.tags.len();
        let mut fi: usize = 0;
        let mut hit = false;
        while fi < fn_
            invariant
                fn_ == f.tags@.len(),
                0 <= fi <= fn_,
                needle@ == lower_of(tags@[si as int]@),
                si < sn,
                sn == tags@.len(),
                hit == exists|k: int| 0 <= k < fi && spec_str_contains(
                    lower_of((#[trigger] f.tags@[k])@),
                    lower_of(tags@[si as int]@),
                ),
            decreases fn_ - fi,
        {
            let hay = to_lowercase(f.tags[fi].as_str());
            if str_contains(hay.as_str(), needle.as_str()) {
                hit = true;
            }
            fi += 1;
        }
        if hit {
            return true;
        }
        si += 1;
    }
    false
}

/// Copies one entry; the copy says the same thing.
fn duplicate_entry(f: &FavoriteImage) -> (r: FavoriteImage)
    ensures
        fav_view(r) == fav_view(*f),
        r.added_at == f.added_at,
{
    let n = f.tags.len();
    let mut tags: Vec<String> = Vec::new();
    let mut i: usize = 0;
    while i < n
        invariant
            n == f.tags@.len(),
            0 <= i <= n,
            tags@.len() == i,
            forall|j: int| 0 <= j < i ==> tags@[j] == f.tags@[j],
        decreases n - i,
    {
        tags.push(f.tags[i].clone());
        i += 1;
    }
    proof {
        assert(tags.deep_view() =~= f.tags.deep_view());
    }
    FavoriteImage { path: f.path.clone(), tags, added_at: f.added_at }
}

/// Removing an entry removes its contents, position for position.
proof fn lemma_favs_view_remove(s: Seq<FavoriteImage>, i: int)
    requires
        0 <= i < s.len(),
    ensures
        favs_view(s.remove(i)) =~= favs_view(s).remove(i),
{
}

/// Appending an entry appends its contents.
proof fn lemma_favs_view_push(s: Seq<FavoriteImage>, f: FavoriteImage)
    ensures
        favs_view(s.push(f)) =~= favs_view(s).push(fav_view(f)),
{
    assert forall|j: int| 0 <= j < s.len() + 1 implies favs_view(s.push(f))[j] == favs_view(
        s,
    ).push(fav_view(f))[j] by {
        if j < s.len() {
            assert(s.push(f)[j] == s[j]);
        } else {
            assert(s.push(f)[j] == f);
        }
    }
}

/// One more element of a prefix is the prefix plus that element.
proof fn lemma_take_push(s: Seq<FavoriteImage>, i: int)
    requires
        0 <= i < s.len(),
    ensures
        s.take(i + 1) =~= s.take(i).push(s[i]),
{
}

/// The order on strings is reflexive.
proof fn lemma_str_le_refl(a: Seq<char>)
    ensures
        spec_str_le(a, a),
    decreases a.len(),
{
    if a.len() > 0 {
        lemma_str_le_refl(a.drop_first());
    }
}

/// Sorts entries by timestamp, newest first, keeping exactly the same
/// contents.
fn sort_favs_desc(v: Vec<FavoriteImage>) -> (r: Vec<FavoriteImage>)
    ensures
        favs_view(r@).to_multiset() == favs_view(v@).to_multiset(),
        r@.len() == v@.len(),
        forall|i: int, j: int| 0 <= i < j < r@.len() ==> (#[trigger] r@[i]).added_at >= (
        #[trigger] r@[j]).added_at,
{
    broadcast use group_to_multiset_ensures;

    let ghost orig = favs_view(v@).to_multiset();
    let ghost total = v@.len();
    let mut work = v;
    let mut out: Vec<FavoriteImage> = Vec::new();
    proof {
        assert(favs_view(out@) =~= Seq::<(Seq<char>, Seq<Seq<char>>, int)>::empty());
        assert(favs_view(out@).to_multiset().add(favs_view(work@).to_multiset()) =~= orig);
    }
    while work.len() > 0
        invariant
            favs_view(out@).to_multiset().add(favs_view(work@).to_multiset()) == orig,
            out@.len() + work@.len() == total,
            forall|i: int, j: int| 0 <= i < j < out@.len() ==> (#[trigger] out@[i]).added_at
                >= (#[trigger] out@[j]).added_at,
            out@.len() > 0 ==> forall|i: int| 0 <= i < work@.len() ==> out@[out@.len()
                - 1].added_at >= (#[trigger] work@[i]).added_at,
        decreases work.len(),
    {
        let n = work.len();
        let mut m: usize = 0;
        let mut k: usize = 1;
        while k < n
            invariant
                n == work@.len(),
                0 <= m < n,
                m < k <= n || (k <= n && m == 0),
                forall|i: int| 0 <= i < k ==> work@[m as int].added_at >= (
                #[trigger] work@[i]).added_at,
            decreases n - k,
        {
            if work[k].added_at > work[m].added_at {
                m = k;
            }
            k += 1;
        }
        let ghost before = work@;
        let e = work.remove(m);
        proof {
            lemma_favs_view_remove(before, m as int);
            assert(favs_view(before)[m as int] == fav_view(e));
            assert(favs_view(before).contains(fav_view(e)));
            favs_view(before).to_multiset_ensures();
            assert(favs_view(work@) == favs_view(before).remove(m as int));
            assert(favs_view(before).remove(m as int).to_multiset() =~= favs_view(
                before,
            ).to_multiset().remove(favs_view(before)[m as int]));
            assert(favs_view(work@).to_multiset() =~= favs_view(before).to_multiset().remove(
                fav_view(e),
            ));
        }
        let ghost out_before = out@;
        out.push(e);
        proof {
            assert(favs_view(out@) =~= favs_view(out_before).push(fav_view(e)));
            favs_view(out_before).to_multiset_ensures();
            assert(favs_view(out_before).push(fav_view(e)).to_multiset() =~= favs_view(
                out_before,
            ).to_multiset().insert(fav_view(e)));
            assert(favs_view(out@).to_multiset() =~= favs_view(out_before).to_multiset().insert(
                fav_view(e),
            ));
            assert(favs_view(out@).to_multiset().add(favs_view(work@).to_multiset()) =~= favs_view(
                out_before,
            ).to_multiset().add(favs_view(before).to_multiset()));
            assert forall|i: int| 0 <= i < work@.len() implies out@[out@.len() - 1].added_at
                >= (#[trigger] work@[i]).added_at by {
                if i < m {
                    assert(work@[i] == before[i]);
                } else {
                    assert(work@[i] == before[i + 1]);
                }
            }
        }
    }
    proof {
        assert(favs_view(work@) =~= Seq::<(Seq<char>, Seq<Seq<char>>, int)>::empty());
        assert(favs_view(out@).to_multiset().add(favs_view(work@).to_multiset()) =~= favs_view(
            out@,
        ).to_multiset());
    }
    out
}

/// Sorts strings ascending, keeping exactly the same values.
fn sort_strings_asc(v: Vec<String>) -> (r: Vec<String>)
    ensures
        r@.to_multiset() == v@.to_multiset(),
        r@.len() == v@.len(),
        forall|i: int, j: int| 0 <= i < j < r@.len() ==> spec_str_le(
            (#[trigger] r@[i])@,
            (#[trigger] r@[j])@,
        ),
{
    broadcast use group_to_multiset_ensures;

    let ghost orig = v@.to_multiset();
    let ghost total = v@.len();
    let mut work = v;
    let mut out: Vec<String> = Vec::new();
    proof {
        assert(out@.to_multiset().add(work@.to_multiset()) =~= orig);
    }
    while work.len() > 0
        invariant
            out@.to_multiset().add(work@.to_multiset()) == orig,
            out@.len() + work@.len() == total,
            forall|i: int, j: int| 0 <= i < j < out@.len() ==> spec_str_le(
                (#[trigger] out@[i])@,
                (#[trigger] out@[j])@,
            ),
            out@.len() > 0 ==> forall|i: int| 0 <= i < work@.len() ==> spec_str_le(
                out@[out@.len() - 1]@,
                (#[trigger] work@[i])@,
            ),
        decreases work.len(),
    {
        let n = work.len();
        let mut m: usize = 0;
        proof {
            lemma_str_le_refl(work@[0]@);
        }
        let mut k: usize = 1;
        while k < n
            invariant
                n == work@.len(),
                0 <= m < n,
                1 <= k <= n,
                forall|i: int| 0 <= i < k ==> spec_str_le(
                    work@[m as int]@,
                    (#[trigger] work@[i])@,
                ),
            decreases n - k,
        {
            if !str_le(work[m].as_str(), work[k].as_str()) {
                proof {
                    lemma_str_le_total(work@[m as int]@, work@[k as int]@);
                    lemma_str_le_trans_all(work@, m as int, k as int);
                    lemma_str_le_refl(work@[k as int]@);
                }
                m = k;
            } else {
                proof {
                    assert(spec_str_le(work@[m as int]@, work@[k as int]@));
                }
            }
            k += 1;
        }
        let ghost before = work@;
        let e = work.remove(m);
        proof {
            assert(before[m as int] == e);
            assert(before.contains(e));
            before.to_multiset_ensures();
            assert(before.remove(m as int).to_multiset() =~= before.to_multiset().remove(
                before[m as int],
            ));
            assert(work@.to_multiset() =~= before.to_multiset().remove(e));
        }
        let ghost out_before = out@;
        out.push(e);
        proof {
            out_before.to_multiset_ensures();
            assert(out_before.push(e).to_multiset() =~= out_before.to_multiset().insert(e));
            assert(out@.to_multiset() =~= out_before.to_multiset().insert(e));
            if out_before.len() > 0 {
                assert(spec_str_le((out_before[out_before.len() - 1])@, e@));
                assert forall|i: int| 0 <= i < out_before.len() implies spec_str_le(
                    (#[trigger] out_before[i])@,
                    e@,
                ) by {
                    lemma_str_le_refl((out_before[i])@);
                    lemma_str_le_trans(
                        (out_before[i])@,
                        (out_before[out_before.len() - 1])@,
                        e@,
                    );
                }
            }
            assert(out@.to_multiset().add(work@.to_multiset()) =~= out_before.to_multiset().add(
                before.to_multiset(),
            ));
            assert forall|i: int| 0 <= i < work@.len() implies spec_str_le(
                out@[out@.len() - 1]@,
                (#[trigger] work@[i])@,
            ) by {
                if i < m {
                    assert(work@[i] == before[i]);
                } else {
                    assert(work@[i] == before[i + 1]);
                }
            }
        }
    }
    proof {
        assert(out@.to_multiset().add(work@.to_multiset()) =~= out@.to_multiset());
    }
    out
}

/// The order on strings is total.
proof fn lemma_str_le_total(a: Seq<char>, b: Seq<char>)
    ensures
        spec_str_le(a, b) || spec_str_le(b, a),
    decreases a.len(),
{
    if a.len() > 0 && b.len() > 0 && a[0] == b[0] {
        lemma_str_le_total(a.drop_first(), b.drop_first());
    }
}

/// When a new minimum is taken, everything the old minimum was below is
/// still above the new one.
proof fn lemma_str_le_trans_all(s: Seq<String>, m: int, k: int)
    requires
        0 <= m < s.len(),
        0 <= k < s.len(),
        spec_str_le(s[k]@, s[m]@),
        forall|i: int| 0 <= i < k ==> spec_str_le(s[m]@, (#[trigger] s[i])@),
    ensures
        forall|i: int| 0 <= i < k ==> spec_str_le(s[k]@, (#[trigger] s[i])@),
{
    assert forall|i: int| 0 <= i < k implies spec_str_le(s[k]@, (#[trigger] s[i])@) by {
        lemma_str_le_trans(s[k]@, s[m]@, s[i]@);
    }
}

/// The order on strings is transitive.
proof fn lemma_str_le_trans(a: Seq<char>, b: Seq<char>, c: Seq<char>)
    requires
        spec_str_le(a, b),
        spec_str_le(b, c),
    ensures
        spec_str_le(a, c),
    decreases a.len() + b.len() + c.len(),
{
    if a.len() > 0 && b.len() > 0 && c.len() > 0 {
        if a[0] == b[0] && b[0] == c[0] {
            lemma_str_le_trans(a.drop_first(), b.drop_first(), c.drop_first());
        }
    }
}

/// Relies on `std::time::SystemTime::now` and `duration_since`: seconds of
/// the current clock; nothing is promised of the value.
#[verifier::external_body]
fn unix_timestamp() -> (r: i64) {
    match std::time::SystemTime::now().duration_since(std::time::UNIX_EPOCH) {
        Ok(d) => d.as_secs() as i64,
        Err(_) => 0,
    }
}

} // verus!
