//! The build context: the pages and assets of a site by logical name, the
//! public files, and the build mode. Live reload replaces entries in it.
use vstd::prelude::*;

use crate::asset::{Asset, PublicFile};
use crate::build_mode::BuildMode;
use crate::content::Content;
use crate::events::Event;
use crate::pathname::{file_name, file_name_of, join_of, name, name_of};
use crate::store::Store;

verus! {

/// The name a page is kept under: the file name of its source.
pub open spec fn page_key(c: Content) -> Seq<char> {
    match file_name_of(c.source@) {
        Some(n) => n,
        None => Seq::empty(),
    }
}

/// The name an asset is kept under: its source file name.
pub open spec fn asset_key(a: Asset) -> Seq<char> {
    a.source_name@
}

/// The shared state of one build.
pub struct BuildContext {
    pub assets: Store<Asset>,
    pub pages: Store<Content>,
    pub public_files: Vec<PublicFile>,
    pub mode: BuildMode,
}

/// After putting `items` in order into `before`, giving `after`: the names
/// are the earlier ones and those of the items, and under each name of an
/// item stands the last item with that name.
pub open spec fn put_all<V>(
    before: Map<Seq<char>, V>,
    items: Seq<V>,
    key: spec_fn(V) -> Seq<char>,
    after: Map<Seq<char>, V>,
) -> bool {
    &&& forall|k: Seq<char>|
        after.contains_key(k) <==> (before.contains_key(k) || exists|i: int|
            0 <= i < items.len() && key(#[trigger] items[i]) == k)
    &&& forall|k: Seq<char>|
        before.contains_key(k) && (forall|i: int| 0 <= i < items.len() ==> key(#[trigger] items[i]) != k)
            ==> after[k] == before[k]
    &&& forall|i: int|
        0 <= i < items.len() && (forall|j: int| i < j < items.len() ==> key(#[trigger] items[j]) != key(items[i]))
            ==> after[key(#[trigger] items[i])] == items[i]
}

proof fn lemma_put_all_step<V>(
    before: Map<Seq<char>, V>,
    done: Seq<V>,
    x: V,
    key: spec_fn(V) -> Seq<char>,
    m: Map<Seq<char>, V>,
    m2: Map<Seq<char>, V>,
)
    requires
        put_all(before, done, key, m),
        m2 == m.insert(key(x), x),
    ensures
        put_all(before, done.push(x), key, m2),
{
    let next = done.push(x);
    let n = done.len() as int;
    assert(next[n] == x);
    assert forall|k: Seq<char>|
        m2.contains_key(k) <==> (before.contains_key(k) || exists|i: int|
            0 <= i < next.len() && key(#[trigger] next[i]) == k) by {
        if exists|i: int| 0 <= i < done.len() && key(#[trigger] done[i]) == k {
            let i = choose|i: int| 0 <= i < done.len() && key(#[trigger] done[i]) == k;
            assert(next[i] == done[i]);
        }
        if exists|i: int| 0 <= i < next.len() && key(#[trigger] next[i]) == k {
            let i = choose|i: int| 0 <= i < next.len() && key(#[trigger] next[i]) == k;
            if i < n {
                assert(next[i] == done[i]);
            }
        }
        if k == key(x) {
            assert(key(next[n]) == k);
        }
    }
    assert forall|k: Seq<char>|
        before.contains_key(k) && (forall|i: int| 0 <= i < next.len() ==> key(#[trigger] next[i]) != k)
            implies m2[k] == before[k] by {
        assert(key(next[n]) != k);
        assert forall|i: int| 0 <= i < done.len() implies key(#[trigger] done[i]) != k by {
            assert(next[i] == done[i]);
        }
    }
    assert forall|i: int|
        0 <= i < next.len() && (forall|j: int| i < j < next.len() ==> key(#[trigger] next[j]) != key(next[i]))
            implies m2[key(#[trigger] next[i])] == next[i] by {
        if i < n {
            assert(next[i] == done[i]);
            assert(key(next[n]) != key(next[i]));
            assert forall|j: int| i < j < done.len() implies key(#[trigger] done[j]) != key(done[i]) by {
                assert(next[j] == done[j]);
            }
        }
    }
}

impl BuildContext {
    pub open spec fn wf(&self) -> bool {
        self.assets.wf() && self.pages.wf()
    }

    /// An empty context for `mode`.
    pub fn new(mode: BuildMode) -> (r: BuildContext)
        ensures
            r.wf(),
            r.mode == mode,
            r.assets@ == Map::<Seq<char>, Asset>::empty(),
            r.pages@ == Map::<Seq<char>, Content>::empty(),
            r.public_files@.len() == 0,
    {
        BuildContext { assets: Store::new(), pages: Store::new(), public_files: Vec::new(), mode }
    }

    /// Puts a page under its source file name.
    pub fn add_page(&mut self, page: Content)
        requires
            old(self).wf(),
        ensures
            final(self).wf(),
            final(self).pages@ == old(self).pages@.insert(page_key(page), page),
            final(self).assets@ == old(self).assets@,
            final(self).mode == old(self).mode,
            final(self).public_files == old(self).public_files,
    {
        let key = match file_name(page.source.as_str()) {
            Some(n) => n.to_string(),
            None => String::new(),
        };
        self.pages.insert(key, page);
    }

    /// Puts an asset under its source file name.
    pub fn add_asset(&mut self, asset: Asset)
        requires
            old(self).wf(),
        ensures
            final(self).wf(),
            final(self).assets@ == old(self).assets@.insert(asset_key(asset), asset),
            final(self).pages@ == old(self).pages@,
            final(self).mode == old(self).mode,
            final(self).public_files == old(self).public_files,
    {
        let key = asset.source_name.clone();
        self.assets.insert(key, asset);
    }

    /// Takes in a full collection: the pages, the assets and the public
    /// files, and in development the live-reload helper, written to
    /// `out_dir`. A later item with the same name replaces an earlier one.
    /// Collecting publishes no event.
    pub fn collect(
        &mut self,
        pages: Vec<Content>,
        assets: Vec<Asset>,
        public_files: Vec<PublicFile>,
        out_dir: &str,
        livereload: String,
    )
        requires
            old(self).wf(),
        ensures
            final(self).wf(),
            final(self).mode == old(self).mode,
            final(self).public_files@ == old(self).public_files@ + public_files@,
            put_all(old(self).pages@, pages@, |c: Content| page_key(c), final(self).pages@),
            old(self).mode == BuildMode::Optimized ==> put_all(
                old(self).assets@,
                assets@,
                |a: Asset| asset_key(a),
                final(self).assets@,
            ),
            old(self).mode == BuildMode::Normal ==> exists|m: Map<Seq<char>, Asset>|
                put_all(old(self).assets@, assets@, |a: Asset| asset_key(a), m) && final(self).assets@
                    == m.insert("livereload.js"@, final(self).assets@["livereload.js"@]),
            old(self).mode == BuildMode::Normal ==> final(self).assets@.contains_key(
                "livereload.js"@,
            ) && final(self).assets@["livereload.js"@].build_path@ == join_of(
                out_dir@,
                "livereload.js"@,
            ) && final(self).assets@["livereload.js"@].content@ == livereload@,
    {
        let ghost input = pages@;
        let ghost start = self.pages@;
        let mut pages = pages;
        let ghost mut k: int = 0;
        while pages.len() > 0
            invariant
                self.wf(),
                self.mode == old(self).mode,
                self.assets@ == old(self).assets@,
                self.public_files == old(self).public_files,
                0 <= k <= input.len(),
                pages@ == input.subrange(k, input.len() as int),
                put_all(start, input.subrange(0, k), |c: Content| page_key(c), self.pages@),
            decreases pages@.len(),
        {
            let p = pages.remove(0);
            let ghost p_copy = p;
            let ghost before = self.pages@;
            self.add_page(p);
            proof {
                assert(input.subrange(0, k + 1) == input.subrange(0, k).push(p_copy));
                lemma_put_all_step(start, input.subrange(0, k), p_copy, |x: Content| page_key(x), before, self.pages@);
                k = k + 1;
            }
        }
        assert(input.subrange(0, input.len() as int) == input);
        let ghost pages_done = self.pages@;
        let ghost input = assets@;
        let ghost start = self.assets@;
        let mut assets = assets;
        let ghost mut k: int = 0;
        while assets.len() > 0
            invariant
                self.wf(),
                self.mode == old(self).mode,
                self.pages@ == pages_done,
                self.public_files == old(self).public_files,
                0 <= k <= input.len(),
                assets@ == input.subrange(k, input.len() as int),
                put_all(start, input.subrange(0, k), |a: Asset| asset_key(a), self.assets@),
            decreases assets@.len(),
        {
            let a = assets.remove(0);
            let ghost a_copy = a;
            let ghost before = self.assets@;
            self.add_asset(a);
            proof {
                assert(input.subrange(0, k + 1) == input.subrange(0, k).push(a_copy));
                lemma_put_all_step(start, input.subrange(0, k), a_copy, |x: Asset| asset_key(x), before, self.assets@);
                k = k + 1;
            }
        }
        assert(input.subrange(0, input.len() as int) == input);
        let ghost collected = self.assets@;
        if self.mode.normal() {
            self.add_asset(Asset::livereload(out_dir, livereload));
            proof {
                reveal_strlit("livereload.js");
                assert(self.assets@ == collected.insert("livereload.js"@, self.assets@["livereload.js"@]));
            }
        }
        let mut public_files = public_files;
        self.public_files.append(&mut public_files);
    }

    /// The file name an asset is currently written under, for templates
    /// that link to it by its logical name.
    pub fn get_asset(&self, key: &str) -> (r: Option<String>)
        ensures
            match r {
                Some(f) => self.assets@.contains_key(key@) && f@ == name_of(
                    self.assets@[key@].build_path@,
                ),
                None => !self.assets@.contains_key(key@),
            },
    {
        match self.assets.get(key) {
            Some(a) => Some(name(a.build_path.as_str()).to_string()),
            None => None,
        }
    }

    /// Replaces the asset under `key`; the dev server is then told to
    /// reload.
    pub fn update_asset(&mut self, key: String, asset: Asset) -> (r: Event)
        requires
            old(self).wf(),
        ensures
            final(self).wf(),
            final(self).assets@ == old(self).assets@.insert(key@, asset),
            final(self).pages@ == old(self).pages@,
            final(self).mode == old(self).mode,
            r is Reload,
    {
        self.assets.insert(key, asset);
        Event::Reload
    }

    /// Replaces the page under `key`; the dev server is then told to
    /// reload.
    pub fn update_page(&mut self, key: String, page: Content) -> (r: Event)
        requires
            old(self).wf(),
        ensures
            final(self).wf(),
            final(self).pages@ == old(self).pages@.insert(key@, page),
            final(self).assets@ == old(self).assets@,
            final(self).mode == old(self).mode,
            r is Reload,
    {
        self.pages.insert(key, page);
        Event::Reload
    }
}

} // verus!
