//! The items a server is told to sync, by rating key: adding one checks its
//! transcode profile and replaces an earlier entry for the same key; removing one
//! says whether it was there.
use vstd::prelude::*;

use crate::profile::builtin_spec;
use crate::text::{chars_eq, to_chars};

verus! {

/// An item to sync: its rating key, the transcode profile it is synced with, if
/// any, and whether only unplayed videos are synced.
pub struct SyncItem {
    pub id: String,
    pub transcode_profile: Option<String>,
    pub only_unplayed: bool,
}

/// What is kept of an item, by its rating key.
pub open spec fn item_settings(item: SyncItem) -> (Option<Seq<char>>, bool) {
    (
        match item.transcode_profile {
            Some(p) => Some(p@),
            None => None,
        },
        item.only_unplayed,
    )
}

/// The items of a server, each rating key once.
pub struct SyncList {
    pub items: Vec<SyncItem>,
}

/// The items' settings by rating key, among the first `n`.
pub open spec fn settings_map(items: Seq<SyncItem>, n: int) -> Map<Seq<char>, (Option<Seq<char>>, bool)>
    decreases n,
{
    if n <= 0 {
        Map::empty()
    } else {
        settings_map(items, n - 1).insert(items[n - 1].id@, item_settings(items[n - 1]))
    }
}

/// The position of the item with rating key `id`.
pub open spec fn position_of(items: Seq<SyncItem>, id: Seq<char>) -> Option<int> {
    if exists|i: int| 0 <= i < items.len() && #[trigger] items[i].id@ == id {
        Some(choose|i: int| 0 <= i < items.len() && #[trigger] items[i].id@ == id)
    } else {
        None
    }
}

impl View for SyncList {
    type V = Map<Seq<char>, (Option<Seq<char>>, bool)>;

    open spec fn view(&self) -> Self::V {
        settings_map(self.items@, self.items@.len() as int)
    }
}

/// No rating key is there twice.
pub open spec fn keys_distinct(items: Seq<SyncItem>) -> bool {
    forall|i: int, j: int|
        0 <= i < j < items.len() ==> #[trigger] items[i].id@ != #[trigger] items[j].id@
}

proof fn lemma_settings_map(items: Seq<SyncItem>, n: int)
    requires
        0 <= n <= items.len(),
        keys_distinct(items),
    ensures
        forall|k: Seq<char>|
            #![trigger settings_map(items, n).dom().contains(k)]
            settings_map(items, n).dom().contains(k) <==> exists|i: int|
                0 <= i < n && #[trigger] items[i].id@ == k,
        forall|i: int|
            0 <= i < n ==> settings_map(items, n)[#[trigger] items[i].id@] == item_settings(
                items[i],
            ),
    decreases n,
{
    if n > 0 {
        lemma_settings_map(items, n - 1);
        let m = settings_map(items, n - 1);
        assert forall|k: Seq<char>|
            #![trigger settings_map(items, n).dom().contains(k)]
            settings_map(items, n).dom().contains(k) <==> exists|i: int|
                0 <= i < n && #[trigger] items[i].id@ == k by {
            if settings_map(items, n).dom().contains(k) && k != items[n - 1].id@ {
                assert(m.dom().contains(k));
            }
            if k == items[n - 1].id@ {
                assert(items[n - 1].id@ == k);
            }
        }
        assert forall|i: int| 0 <= i < n implies settings_map(items, n)[#[trigger] items[i].id@]
            == item_settings(items[i]) by {
            if i < n - 1 {
                assert(items[i].id@ != items[n - 1].id@);
            }
        }
    }
}

fn same_text(a: &str, b: &str) -> (r: bool)
    ensures
        r == (a@ == b@),
{
    let x = to_chars(a);
    let y = to_chars(b);
    chars_eq(x.as_slice(), y.as_slice())
}

impl SyncList {
    pub open spec fn wf(&self) -> bool {
        keys_distinct(self.items@)
    }

    /// No items.
    pub fn new() -> (r: SyncList)
        ensures
            r.wf(),
            r@ == Map::<Seq<char>, (Option<Seq<char>>, bool)>::empty(),
    {
        SyncList { items: Vec::new() }
    }

    fn find(&self, id: &str) -> (r: Option<usize>)
        requires
            self.wf(),
        ensures
            match r {
                Some(i) => i < self.items.len() && self.items@[i as int].id@ == id@,
                None => forall|i: int|
                    0 <= i < self.items.len() ==> #[trigger] self.items@[i].id@ != id@,
            },
    {
        let mut i: usize = 0;
        while i < self.items.len()
            invariant
                i <= self.items.len(),
                forall|j: int| 0 <= j < i ==> #[trigger] self.items@[j].id@ != id@,
            decreases self.items.len() - i,
        {
            if same_text(self.items[i].id.as_str(), id) {
                return Some(i);
            }
            i = i + 1;
        }
        None
    }

    /// Whether an item with this rating key is synced.
    pub fn contains(&self, id: &str) -> (r: bool)
        requires
            self.wf(),
        ensures
            r == self@.dom().contains(id@),
    {
        proof {
            lemma_settings_map(self.items@, self.items@.len() as int);
        }
        match self.find(id) {
            Some(i) => {
                proof {
                    assert(self.items@[i as int].id@ == id@);
                }
                true
            },
            None => false,
        }
    }

    /// Adds an item, replacing the entry with the same rating key.
    pub fn insert(&mut self, item: SyncItem)
        requires
            old(self).wf(),
        ensures
            final(self).wf(),
            final(self)@ == old(self)@.insert(item.id@, item_settings(item)),
    {
        let ghost before = self.items@;
        let ghost key = item.id@;
        proof {
            lemma_settings_map(before, before.len() as int);
        }
        match self.find(item.id.as_str()) {
            Some(i) => {
                self.items.set(i, item);
                proof {
                    let after = self.items@;
                    assert(keys_distinct(after)) by {
                        assert forall|a: int, b: int| 0 <= a < b < after.len() implies #[trigger] after[a].id@
                            != #[trigger] after[b].id@ by {
                            if a != i && b != i {
                                assert(after[a] == before[a] && after[b] == before[b]);
                            } else if a == i {
                                assert(before[b].id@ != before[a].id@);
                            } else {
                                assert(before[a].id@ != before[b].id@);
                            }
                        }
                    }
                    lemma_settings_map(after, after.len() as int);
                    assert(settings_map(after, after.len() as int) =~= settings_map(
                        before,
                        before.len() as int,
                    ).insert(key, item_settings(after[i as int]))) by {
                        assert forall|k: Seq<char>|
                            #![trigger settings_map(after, after.len() as int).dom().contains(k)]
                            settings_map(after, after.len() as int).dom().contains(k)
                                <==> settings_map(before, before.len() as int).insert(
                                key,
                                item_settings(after[i as int]),
                            ).dom().contains(k) by {
                            if settings_map(before, before.len() as int).dom().contains(k) {
                                let j = choose|j: int|
                                    0 <= j < before.len() && #[trigger] before[j].id@ == k;
                                if j != i {
                                    assert(after[j].id@ == k);
                                }
                            }
                            if settings_map(after, after.len() as int).dom().contains(k) {
                                let j = choose|j: int|
                                    0 <= j < after.len() && #[trigger] after[j].id@ == k;
                                if j != i {
                                    assert(before[j].id@ == k);
                                }
                            }
                        }
                        assert forall|k: Seq<char>|
                            settings_map(after, after.len() as int).dom().contains(k) implies settings_map(
                            after,
                            after.len() as int,
                        )[k] == settings_map(before, before.len() as int).insert(
                            key,
                            item_settings(after[i as int]),
                        )[k] by {
                            let j = choose|j: int|
                                0 <= j < after.len() && #[trigger] after[j].id@ == k;
                            if j != i {
                                assert(before[j].id@ == k);
                                assert(after[j] == before[j]);
                            }
                        }
                    }
                }
            },
            None => {
                self.items.push(item);
                proof {
                    let after = self.items@;
                    assert(keys_distinct(after)) by {
                        assert forall|a: int, b: int| 0 <= a < b < after.len() implies #[trigger] after[a].id@
                            != #[trigger] after[b].id@ by {
                            if b == after.len() - 1 {
                                assert(before[a].id@ != key);
                            } else {
                                assert(after[a] == before[a] && after[b] == before[b]);
                            }
                        }
                    }
                    assert(after.drop_last() =~= before);
                    assert(settings_map(after, before.len() as int) == settings_map(
                        before,
                        before.len() as int,
                    )) by {
                        lemma_settings_map_prefix(after, before, before.len() as int);
                    }
                }
            },
        }
    }

    /// Removes the item with this rating key; whether there was one.
    pub fn remove(&mut self, id: &str) -> (r: bool)
        requires
            old(self).wf(),
        ensures
            final(self).wf(),
            r == old(self)@.dom().contains(id@),
            final(self)@ == old(self)@.remove(id@),
    {
        let ghost before = self.items@;
        proof {
            lemma_settings_map(before, before.len() as int);
        }
        match self.find(id) {
            Some(i) => {
                self.items.remove(i);
                proof {
                    let after = self.items@;
                    assert(after =~= before.remove(i as int));
                    assert(keys_distinct(after)) by {
                        assert forall|a: int, b: int| 0 <= a < b < after.len() implies #[trigger] after[a].id@
                            != #[trigger] after[b].id@ by {
                            let a0 = if a < i { a } else { a + 1 };
                            let b0 = if b < i { b } else { b + 1 };
                            assert(after[a] == before[a0] && after[b] == before[b0]);
                        }
                    }
                    lemma_settings_map(after, after.len() as int);
                    assert(before[i as int].id@ == id@);
                    assert(settings_map(after, after.len() as int) =~= settings_map(
                        before,
                        before.len() as int,
                    ).remove(id@)) by {
                        assert forall|k: Seq<char>|
                            #![trigger settings_map(after, after.len() as int).dom().contains(k)]
                            settings_map(after, after.len() as int).dom().contains(k)
                                <==> settings_map(before, before.len() as int).remove(
                                id@,
                            ).dom().contains(k) by {
                            if settings_map(after, after.len() as int).dom().contains(k) {
                                let j = choose|j: int|
                                    0 <= j < after.len() && #[trigger] after[j].id@ == k;
                                let j0 = if j < i { j } else { j + 1 };
                                assert(after[j] == before[j0]);
                                assert(before[j0].id@ == k);
                                assert(j0 != i);
                            }
                            if settings_map(before, before.len() as int).remove(id@).dom().contains(
                                k,
                            ) {
                                let j = choose|j: int|
                                    0 <= j < before.len() && #[trigger] before[j].id@ == k;
                                assert(j != i);
                                let j1 = if j < i { j } else { j - 1 };
                                assert(after[j1] == before[j]);
                                assert(after[j1].id@ == k);
                            }
                        }
                        assert forall|k: Seq<char>|
                            settings_map(after, after.len() as int).dom().contains(k) implies settings_map(
                            after,
                            after.len() as int,
                        )[k] == settings_map(before, before.len() as int).remove(id@)[k] by {
                            let j = choose|j: int|
                                0 <= j < after.len() && #[trigger] after[j].id@ == k;
                            let j0 = if j < i { j } else { j + 1 };
                            assert(after[j] == before[j0]);
                        }
                    }
                }
                true
            },
            None => {
                proof {
                    assert(!settings_map(before, before.len() as int).dom().contains(id@)) by {
                        if settings_map(before, before.len() as int).dom().contains(id@) {
                            let j = choose|j: int|
                                0 <= j < before.len() && #[trigger] before[j].id@ == id@;
                            assert(before[j].id@ == id@);
                        }
                    }
                    assert(settings_map(before, before.len() as int).remove(id@) =~= settings_map(
                        before,
                        before.len() as int,
                    ));
                }
                false
            },
        }
    }
}

proof fn lemma_settings_map_prefix(a: Seq<SyncItem>, b: Seq<SyncItem>, n: int)
    requires
        0 <= n <= a.len(),
        n <= b.len(),
        forall|i: int| 0 <= i < n ==> a[i] == b[i],
    ensures
        settings_map(a, n) == settings_map(b, n),
    decreases n,
{
    if n > 0 {
        lemma_settings_map_prefix(a, b, n - 1);
    }
}

// ---------------------------------------------------------------------------
// Adding and removing syncs
// ---------------------------------------------------------------------------

/// A profile name is known when it is configured or built in.
pub open spec fn known_profile(configured: Seq<String>, name: Seq<char>) -> bool {
    (exists|i: int| 0 <= i < configured.len() && #[trigger] configured[i]@ == name) || builtin_spec(
        name,
    ) is Some
}

fn builtin_known(name: &str) -> (r: bool)
    ensures
        r == (builtin_spec(name@) is Some),
{
    proof {
        reveal_strlit("original");
        reveal_strlit("720p");
        reveal_strlit("1080p");
    }
    same_text(name, "original") || same_text(name, "720p") || same_text(name, "1080p")
}

fn is_known_profile(configured: &Vec<String>, name: &str) -> (r: bool)
    ensures
        r == known_profile(configured@, name@),
{
    let mut i: usize = 0;
    while i < configured.len()
        invariant
            i <= configured.len(),
            forall|j: int| 0 <= j < i ==> #[trigger] configured@[j]@ != name@,
        decreases configured.len() - i,
    {
        if same_text(configured[i].as_str(), name) {
            proof {
                assert(configured@[i as int]@ == name@);
            }
            return true;
        }
        i = i + 1;
    }
    builtin_known(name)
}

/// Syncs the item with this rating key, with this profile and only its unplayed
/// videos or all; an unknown profile is refused and named in the error, and the
/// list is then left as it was.
pub fn add_sync(
    list: &mut SyncList,
    configured_profiles: &Vec<String>,
    rating_key: &str,
    transcode_profile: Option<String>,
    only_unplayed: bool,
) -> (r: Result<(), String>)
    requires
        old(list).wf(),
    ensures
        final(list).wf(),
        match transcode_profile {
            Some(p) => !known_profile(configured_profiles@, p@) ==> (r matches Err(e) && e@ == p@
                && final(list)@ == old(list)@),
            None => true,
        },
        (match transcode_profile {
            Some(p) => known_profile(configured_profiles@, p@),
            None => true,
        }) ==> r is Ok && final(list)@ == old(list)@.insert(
            rating_key@,
            (
                match transcode_profile {
                    Some(p) => Some(p@),
                    None => None,
                },
                only_unplayed,
            ),
        ),
{
    if let Some(profile) = &transcode_profile {
        if !is_known_profile(configured_profiles, profile.as_str()) {
            return Err(profile.clone());
        }
    }
    let item = SyncItem { id: rating_key.to_owned(), transcode_profile, only_unplayed };
    list.insert(item);
    Ok(())
}

/// Syncing an item that was not synced and then removing it leaves the list as
/// it was; removing then says the item was there.
pub proof fn lemma_add_then_remove(
    before: Map<Seq<char>, (Option<Seq<char>>, bool)>,
    key: Seq<char>,
    settings: (Option<Seq<char>>, bool),
)
    requires
        !before.dom().contains(key),
    ensures
        before.insert(key, settings).dom().contains(key),
        before.insert(key, settings)[key] == settings,
        before.insert(key, settings).remove(key) == before,
{
    assert(before.insert(key, settings).remove(key) =~= before);
}

} // verus!
