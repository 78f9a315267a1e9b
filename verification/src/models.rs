//! The catalogue of writing-focused models: which exist, which have been
//! downloaded, and which need downloading.
use vstd::prelude::*;
use crate::text::{chars_of, occurs_within};

verus! {

/// A model that the assistant can use.
#[derive(Clone, Debug)]
pub struct ModelInfo {
    /// The name Ollama knows the model by, such as "llama3.2".
    pub name: String,
    pub display_name: String,
    pub description: String,
    /// Whether Ollama reports the model as present locally.
    pub downloaded: bool,
    /// The download size, in tenths of a gigabyte.
    pub size_tenths_gb: u32,
    pub writing_focused: bool,
}

/// The view of a [`ModelInfo`].
#[verifier::ext_equal]
pub struct ModelView {
    pub name: Seq<char>,
    pub display_name: Seq<char>,
    pub description: Seq<char>,
    pub downloaded: bool,
    pub size_tenths_gb: u32,
    pub writing_focused: bool,
}

impl View for ModelInfo {
    type V = ModelView;

    open spec fn view(&self) -> ModelView {
        ModelView {
            name: self.name@,
            display_name: self.display_name@,
            description: self.description@,
            downloaded: self.downloaded,
            size_tenths_gb: self.size_tenths_gb,
            writing_focused: self.writing_focused,
        }
    }
}

impl ModelView {
    /// The same model with its downloaded flag set to `d`.
    pub open spec fn with_downloaded(self, d: bool) -> ModelView {
        ModelView { downloaded: d, ..self }
    }
}

impl ModelInfo {
    /// A copy of this model's description.
    pub fn duplicate(&self) -> (r: ModelInfo)
        ensures
            r@ == self@,
    {
        ModelInfo {
            name: self.name.clone(),
            display_name: self.display_name.clone(),
            description: self.description.clone(),
            downloaded: self.downloaded,
            size_tenths_gb: self.size_tenths_gb,
            writing_focused: self.writing_focused,
        }
    }
}

/// `prefix` begins `s`.
pub open spec fn starts_with(s: Seq<char>, prefix: Seq<char>) -> bool {
    prefix.len() <= s.len() && s.subrange(0, prefix.len() as int) == prefix
}

/// Some name among `tags` begins with the model name `name`: Ollama lists the
/// model under one of its tags.
pub open spec fn listed_among(tags: Seq<Seq<char>>, name: Seq<char>) -> bool {
    exists|i: int| 0 <= i < tags.len() && starts_with(#[trigger] tags[i], name)
}

/// The map from name to model that results from registering `models` in
/// order, a later model replacing an earlier one of the same name.
pub open spec fn catalog_map(models: Seq<ModelView>) -> Map<Seq<char>, ModelView>
    decreases models.len(),
{
    if models.len() == 0 {
        Map::empty()
    } else {
        catalog_map(models.drop_last()).insert(models.last().name, models.last())
    }
}

/// The entries after registering `m`: it replaces the entry of the same name
/// in place, or is added at the end.
pub open spec fn register(entries: Seq<ModelView>, m: ModelView) -> Seq<ModelView> {
    if exists|i: int| 0 <= i < entries.len() && #[trigger] entries[i].name == m.name {
        entries.update(choose|i: int| 0 <= i < entries.len() && #[trigger] entries[i].name == m.name, m)
    } else {
        entries.push(m)
    }
}

/// The entries after registering `models` in order into an empty catalogue.
pub open spec fn registered(models: Seq<ModelView>) -> Seq<ModelView>
    decreases models.len(),
{
    if models.len() == 0 {
        Seq::empty()
    } else {
        register(registered(models.drop_last()), models.last())
    }
}

/// No two models share a name.
pub open spec fn distinct_names(models: Seq<ModelView>) -> bool {
    forall|i: int, j: int|
        0 <= i < models.len() && 0 <= j < models.len() && i != j ==> #[trigger] models[i].name
            != #[trigger] models[j].name
}

/// The views of a sequence of models.
pub open spec fn model_views(models: Seq<ModelInfo>) -> Seq<ModelView> {
    models.map_values(|m: ModelInfo| m@)
}

/// The models in the order in which they were first registered, names unique.
pub struct ModelCatalog {
    models: Vec<ModelInfo>,
}

impl View for ModelCatalog {
    type V = Map<Seq<char>, ModelView>;

    closed spec fn view(&self) -> Map<Seq<char>, ModelView> {
        catalog_map(model_views(self.models@))
    }
}

pub(crate) proof fn lemma_catalog_dom(models: Seq<ModelView>, k: Seq<char>)
    ensures
        catalog_map(models).dom().contains(k) <==> exists|i: int|
            0 <= i < models.len() && #[trigger] models[i].name == k,
    decreases models.len(),
{
    if models.len() > 0 {
        let init = models.drop_last();
        lemma_catalog_dom(init, k);
        if catalog_map(init).dom().contains(k) {
            let i = choose|i: int| 0 <= i < init.len() && #[trigger] init[i].name == k;
            assert(models[i].name == k);
        }
        if exists|i: int| 0 <= i < models.len() && #[trigger] models[i].name == k {
            let i = choose|i: int| 0 <= i < models.len() && #[trigger] models[i].name == k;
            if i < models.len() - 1 {
                assert(init[i].name == k);
            }
        }
    }
}

pub(crate) proof fn lemma_catalog_entry(models: Seq<ModelView>, k: Seq<char>)
    ensures
        catalog_map(models).dom().contains(k) ==> catalog_map(models)[k].name == k
            && models.contains(catalog_map(models)[k]),
    decreases models.len(),
{
    if models.len() > 0 {
        let init = models.drop_last();
        lemma_catalog_entry(init, k);
        if k != models.last().name && catalog_map(init).dom().contains(k) {
            let j = choose|j: int| 0 <= j < init.len() && init[j] == catalog_map(init)[k];
            assert(models[j] == init[j]);
        }
        if k == models.last().name {
            assert(models[models.len() - 1] == models.last());
        }
    }
}

pub(crate) proof fn lemma_catalog_value(models: Seq<ModelView>, i: int)
    requires
        distinct_names(models),
        0 <= i < models.len(),
    ensures
        catalog_map(models).dom().contains(models[i].name),
        catalog_map(models)[models[i].name] == models[i],
    decreases models.len(),
{
    let init = models.drop_last();
    if i < models.len() - 1 {
        assert(distinct_names(init));
        lemma_catalog_value(init, i);
        assert(models[i].name != models[models.len() - 1].name);
    }
}

pub(crate) proof fn lemma_catalog_len(models: Seq<ModelView>)
    requires
        distinct_names(models),
    ensures
        catalog_map(models).dom().finite(),
        catalog_map(models).dom().len() == models.len(),
    decreases models.len(),
{
    if models.len() > 0 {
        let init = models.drop_last();
        assert(distinct_names(init));
        lemma_catalog_len(init);
        lemma_catalog_dom(init, models.last().name);
        if catalog_map(init).dom().contains(models.last().name) {
            let i = choose|i: int| 0 <= i < init.len() && #[trigger] init[i].name == models.last().name;
            assert(models[i].name == models[models.len() - 1].name);
        }
    }
}

/// Replacing one model by another of the same name replaces its entry.
proof fn lemma_catalog_update(models: Seq<ModelView>, i: int, m: ModelView)
    requires
        distinct_names(models),
        0 <= i < models.len(),
        models[i].name == m.name,
    ensures
        distinct_names(models.update(i, m)),
        catalog_map(models.update(i, m)) == catalog_map(models).insert(m.name, m),
    decreases models.len(),
{
    let updated = models.update(i, m);
    assert(distinct_names(updated)) by {
        assert forall|a: int, b: int|
            0 <= a < updated.len() && 0 <= b < updated.len() && a != b implies #[trigger] updated[a].name
            != #[trigger] updated[b].name by {
            assert(updated[a].name == models[a].name);
            assert(updated[b].name == models[b].name);
        }
    }
    let init = models.drop_last();
    if i == models.len() - 1 {
        assert(updated.drop_last() =~= init);
        lemma_catalog_dom(init, m.name);
        assert(!catalog_map(init).dom().contains(m.name)) by {
            if catalog_map(init).dom().contains(m.name) {
                let j = choose|j: int| 0 <= j < init.len() && #[trigger] init[j].name == m.name;
                assert(models[j].name == models[i].name);
            }
        }
        assert(catalog_map(updated) =~= catalog_map(models).insert(m.name, m));
    } else {
        assert(distinct_names(init));
        lemma_catalog_update(init, i, m);
        assert(updated.drop_last() =~= init.update(i, m));
        assert(models.last().name != m.name) by {
            assert(models[models.len() - 1].name != models[i].name);
        }
        assert(catalog_map(updated) =~= catalog_map(models).insert(m.name, m));
    }
}

impl ModelCatalog {
    /// The names are distinct.
    #[verifier::type_invariant]
    spec fn wf(&self) -> bool {
        distinct_names(model_views(self.models@))
    }

    /// The models, in the order in which they were first registered.
    pub closed spec fn entries(&self) -> Seq<ModelView> {
        model_views(self.models@)
    }

    /// The catalogue maps each name to the last model of that name among its
    /// entries.
    pub proof fn entries_make_view(&self)
        ensures
            self@ == catalog_map(self.entries()),
    {
    }

    /// The model stored under a name carries that name and is one of the
    /// entries; a name is stored exactly when some entry carries it.
    pub proof fn entry_named_by_key(&self, k: Seq<char>)
        ensures
            self@.dom().contains(k) <==> exists|i: int|
                0 <= i < self.entries().len() && #[trigger] self.entries()[i].name == k,
            self@.dom().contains(k) ==> self@[k].name == k && self.entries().contains(self@[k]),
    {
        lemma_catalog_dom(self.entries(), k);
        lemma_catalog_entry(self.entries(), k);
    }

    /// An empty catalogue.
    pub fn new() -> (r: ModelCatalog)
        ensures
            r@ == Map::<Seq<char>, ModelView>::empty(),
            r.entries() == Seq::<ModelView>::empty(),
    {
        let r = ModelCatalog { models: Vec::new() };
        assert(model_views(r.models@) =~= Seq::<ModelView>::empty());
        r
    }

    /// Where a model named `name` stands, if there is one.
    fn position(&self, name: &str) -> (r: Option<usize>)
        requires
            self.wf(),
        ensures
            match r {
                Some(i) => i < self.models@.len() && self.models@[i as int].name@ == name@,
                None => forall|i: int|
                    0 <= i < self.models@.len() ==> #[trigger] self.models@[i].name@ != name@,
            },
    {
        let key = name.to_owned();
        let mut i: usize = 0;
        while i < self.models.len()
            invariant
                i <= self.models@.len(),
                key@ == name@,
                forall|j: int| 0 <= j < i ==> #[trigger] self.models@[j].name@ != name@,
            decreases self.models.len() - i,
        {
            if self.models[i].name == key {
                return Some(i);
            }
            i += 1;
        }
        None
    }

    /// Registers `model`, replacing any model of the same name in place.
    pub fn insert(&mut self, model: ModelInfo)
        ensures
            final(self)@ == old(self)@.insert(model.name@, model@),
            forall|i: int|
                0 <= i < old(self).entries().len() && #[trigger] old(self).entries()[i].name
                    == model.name@ ==> final(self).entries() == old(self).entries().update(
                    i,
                    model@,
                ),
            (forall|i: int|
                0 <= i < old(self).entries().len() ==> #[trigger] old(self).entries()[i].name
                    != model.name@) ==> final(self).entries() == old(self).entries().push(model@),
    {
        proof {
            use_type_invariant(&*self);
        }
        let ghost before = model_views(self.models@);
        let ghost m = model@;
        let found = self.position(model.name.as_str());
        let mut models: Vec<ModelInfo> = Vec::new();
        std::mem::swap(&mut models, &mut self.models);
        assert(model_views(models@) == before);
        match found {
            Some(i) => {
                proof {
                    lemma_catalog_update(before, i as int, m);
                    assert forall|j: int|
                        0 <= j < before.len() && #[trigger] before[j].name == m.name implies j
                        == i by {
                        if j != i {
                            assert(before[j].name != before[i as int].name);
                        }
                    }
                }
                models.set(i, model);
                assert(before[i as int].name == m.name);
                assert(model_views(models@) =~= before.update(i as int, m));
            },
            None => {
                models.push(model);
                assert(model_views(models@) =~= before.push(m));
                assert(model_views(models@).drop_last() =~= before);
                assert(distinct_names(model_views(models@))) by {
                    assert forall|a: int, b: int|
                        0 <= a < model_views(models@).len() && 0 <= b < model_views(
                            models@,
                        ).len() && a != b implies #[trigger] model_views(models@)[a].name
                        != #[trigger] model_views(models@)[b].name by {
                        if a < before.len() && b < before.len() {
                            assert(model_views(models@)[a] == before[a]);
                            assert(model_views(models@)[b] == before[b]);
                        } else if a < before.len() {
                            assert(models@[a].name@ != m.name);
                        } else {
                            assert(models@[b].name@ != m.name);
                        }
                    }
                }
            },
        }
        self.models = models;
    }

    /// A catalogue that registers `models` in order, a later model replacing
    /// an earlier one of the same name.
    pub fn from_models(models: Vec<ModelInfo>) -> (r: ModelCatalog)
        ensures
            r@ == catalog_map(model_views(models@)),
            r.entries() == registered(model_views(models@)),
    {
        let mut r = ModelCatalog::new();
        let ghost all = model_views(models@);
        let mut rest = models;
        let mut k: usize = 0;
        let n = rest.len();
        let mut pending: Vec<ModelInfo> = Vec::new();
        // Take the models in order: reverse them so that `pop` yields the first.
        while rest.len() > 0
            invariant
                model_views(pending@).len() + rest@.len() == n,
                all == model_views(models@),
                n == all.len(),
                forall|j: int|
                    0 <= j < rest@.len() ==> #[trigger] rest@[j]@ == all[j],
                forall|j: int|
                    0 <= j < pending@.len() ==> #[trigger] pending@[j]@ == all[n - 1 - j],
            decreases rest.len(),
        {
            let m = rest.pop().unwrap();
            pending.push(m);
        }
        while pending.len() > 0
            invariant
                k + pending@.len() == n,
                n == all.len(),
                all == model_views(models@),
                forall|j: int|
                    0 <= j < pending@.len() ==> #[trigger] pending@[j]@ == all[n - 1 - j],
                r@ == catalog_map(all.take(k as int)),
                r.entries() == registered(all.take(k as int)),
            decreases pending.len(),
        {
            let m = pending.pop().unwrap();
            assert(m@ == all[k as int]);
            r.insert(m);
            assert(all.take(k + 1).drop_last() =~= all.take(k as int));
            k += 1;
        }
        assert(all.take(n as int) =~= all);
        r
    }

    /// The models, in the order in which they were first registered.
    pub fn models(&self) -> (r: &Vec<ModelInfo>)
        ensures
            model_views(r@) == self.entries(),
            distinct_names(self.entries()),
    {
        proof {
            use_type_invariant(self);
        }
        &self.models
    }

    /// Whether a model named `name` is in the catalogue.
    pub fn contains(&self, name: &str) -> (r: bool)
        ensures
            r == self@.dom().contains(name@),
    {
        proof {
            use_type_invariant(self);
        }
        let p = self.position(name);
        proof {
            lemma_catalog_dom(model_views(self.models@), name@);
            if let Some(i) = p {
                assert(model_views(self.models@)[i as int].name == name@);
            } else {
                assert forall|i: int|
                    0 <= i < model_views(self.models@).len() implies #[trigger] model_views(
                    self.models@,
                )[i].name != name@ by {
                    assert(self.models@[i].name@ != name@);
                }
            }
        }
        p.is_some()
    }

    /// The model named `name`, if the catalogue holds one.
    pub fn get(&self, name: &str) -> (r: Option<&ModelInfo>)
        ensures
            match r {
                Some(m) => self@.dom().contains(name@) && self@[name@] == m@,
                None => !self@.dom().contains(name@),
            },
    {
        proof {
            use_type_invariant(self);
        }
        match self.position(name) {
            Some(i) => {
                proof {
                    lemma_catalog_value(model_views(self.models@), i as int);
                }
                Some(&self.models[i])
            },
            None => {
                proof {
                    lemma_catalog_dom(model_views(self.models@), name@);
                    assert forall|i: int|
                        0 <= i < model_views(self.models@).len() implies #[trigger] model_views(
                        self.models@,
                    )[i].name != name@ by {
                        assert(self.models@[i].name@ != name@);
                    }
                }
                None
            },
        }
    }

    /// Whether the model named `name` is known and downloaded, so that it can
    /// answer requests.
    pub fn is_available(&self, name: &str) -> (r: bool)
        ensures
            r == (self@.dom().contains(name@) && self@[name@].downloaded),
    {
        proof {
            use_type_invariant(self);
        }
        match self.get(name) {
            Some(m) => m.downloaded,
            None => false,
        }
    }

    /// Whether the model named `name` is known but not yet downloaded.
    pub fn needs_download(&self, name: &str) -> (r: bool)
        ensures
            r == (self@.dom().contains(name@) && !self@[name@].downloaded),
    {
        proof {
            use_type_invariant(self);
        }
        match self.get(name) {
            Some(m) => !m.downloaded,
            None => false,
        }
    }

    /// Sets each model's downloaded flag from the tags that Ollama lists: a
    /// model counts as downloaded when some tag begins with its name.
    pub fn mark_downloaded(&mut self, tags: &Vec<String>)
        ensures
            final(self).entries().len() == old(self).entries().len(),
            forall|i: int|
                0 <= i < old(self).entries().len() ==> #[trigger] final(self).entries()[i]
                    == old(self).entries()[i].with_downloaded(
                    listed_among(tags@.map_values(|t: String| t@), old(self).entries()[i].name),
                ),
            final(self)@ == old(self)@.map_values(
                |m: ModelView| m.with_downloaded(listed_among(tags@.map_values(|t: String| t@), m.name)),
            ),
    {
        proof {
            use_type_invariant(&*self);
        }
        let ghost tag_views = tags@.map_values(|t: String| t@);
        let ghost before = model_views(self.models@);
        let mut marked: Vec<ModelInfo> = Vec::new();
        let mut i: usize = 0;
        while i < self.models.len()
            invariant
                i <= self.models@.len(),
                before == model_views(self.models@),
                tag_views == tags@.map_values(|t: String| t@),
                marked@.len() == i,
                forall|j: int|
                    0 <= j < i ==> #[trigger] marked@[j]@ == before[j].with_downloaded(
                        listed_among(tag_views, before[j].name),
                    ),
            decreases self.models.len() - i,
        {
            let mut m = self.models[i].duplicate();
            m.downloaded = listed_in(tags, &m.name);
            marked.push(m);
            i += 1;
        }
        let ghost flags = Seq::new(before.len(), |j: int| listed_among(tag_views, before[j].name));
        assert(model_views(marked@) =~= Seq::new(
            before.len(),
            |j: int| before[j].with_downloaded(flags[j]),
        ));
        assert(distinct_names(model_views(marked@))) by {
            assert forall|a: int, b: int|
                0 <= a < model_views(marked@).len() && 0 <= b < model_views(marked@).len() && a
                    != b implies #[trigger] model_views(marked@)[a].name
                != #[trigger] model_views(marked@)[b].name by {
                assert(before[a].name != before[b].name);
            }
        }
        self.models = marked;
        proof {
            let after_views = model_views(self.models@);
            let after = catalog_map(after_views);
            let expected = catalog_map(before).map_values(
                |m: ModelView| m.with_downloaded(listed_among(tag_views, m.name)),
            );
            assert forall|k: Seq<char>| #[trigger] after.dom().contains(k) <==> expected.dom().contains(
                k,
            ) by {
                lemma_catalog_dom(after_views, k);
                lemma_catalog_dom(before, k);
                if exists|j: int| 0 <= j < after_views.len() && #[trigger] after_views[j].name == k {
                    let j = choose|j: int|
                        0 <= j < after_views.len() && #[trigger] after_views[j].name == k;
                    assert(before[j].name == k);
                }
                if exists|j: int| 0 <= j < before.len() && #[trigger] before[j].name == k {
                    let j = choose|j: int| 0 <= j < before.len() && #[trigger] before[j].name == k;
                    assert(after_views[j].name == k);
                }
            }
            assert forall|k: Seq<char>| #[trigger] after.dom().contains(k) implies after[k]
                == expected[k] by {
                lemma_catalog_dom(after_views, k);
                let j = choose|j: int|
                    0 <= j < after_views.len() && #[trigger] after_views[j].name == k;
                lemma_catalog_value(after_views, j);
                lemma_catalog_value(before, j);
            }
            assert(after =~= expected);
        }
    }
}

/// Whether some tag in `tags` begins with `name`.
fn listed_in(tags: &Vec<String>, name: &String) -> (r: bool)
    ensures
        r == listed_among(tags@.map_values(|t: String| t@), name@),
{
    let prefix = chars_of(name.as_str());
    let ghost tag_views = tags@.map_values(|t: String| t@);
    let mut i: usize = 0;
    while i < tags.len()
        invariant
            i <= tags@.len(),
            prefix@ == name@,
            tag_views == tags@.map_values(|t: String| t@),
            forall|j: int| 0 <= j < i ==> !starts_with(#[trigger] tag_views[j], name@),
        decreases tags.len() - i,
    {
        let tag = chars_of(tags[i].as_str());
        assert(tag_views[i as int] == tag@);
        if prefix.len() <= tag.len() {
            let found = occurs_within(&tag, 0, prefix.len(), &prefix);
            proof {
                let sub = tag@.subrange(0, prefix.len() as int);
                if found {
                    let w = choose|w: int|
                        0 <= w && w + prefix@.len() <= sub.len() && #[trigger] sub.subrange(
                            w,
                            w + prefix@.len(),
                        ) == prefix@;
                    assert(w == 0);
                    assert(sub.subrange(0, prefix@.len() as int) =~= sub);
                } else {
                    assert(sub.subrange(0int, 0int + prefix@.len()) =~= sub);
                }
            }
            if found {
                return true;
            }
        }
        i += 1;
    }
    false
}

/// The "name" of each entry of the "models" array in Ollama's /api/tags reply
/// `body`: None for an entry whose name is missing or not a string; absent
/// when `body` is no JSON value with a "models" array.
pub uninterp spec fn tag_entries(body: Seq<char>) -> Option<Seq<Option<Seq<char>>>>;

/// The views of optional strings.
pub open spec fn entry_views(entries: Seq<Option<String>>) -> Seq<Option<Seq<char>>> {
    entries.map_values(
        |o: Option<String>|
            match o {
                Some(s) => Some(s@),
                None => None,
            },
    )
}

/// The names present among `entries`, in order.
pub open spec fn present_names(entries: Seq<Option<Seq<char>>>) -> Seq<Seq<char>>
    decreases entries.len(),
{
    if entries.len() == 0 {
        Seq::empty()
    } else {
        let rest = present_names(entries.drop_last());
        match entries.last() {
            Some(n) => rest.push(n),
            None => rest,
        }
    }
}

/// Parses `body` with `serde_json::from_str::<serde_json::Value>`, then takes
/// `get("models")`, `as_array`, and of each entry `get("name")` and `as_str`.
/// Claimed: the result depends on `body` alone (named `tag_entries`); which
/// texts the parser accepts and how it reads them is left unsaid.
#[verifier::external_body]
fn read_tag_entries(body: &str) -> (r: Option<Vec<Option<String>>>)
    ensures
        (match r {
            Some(v) => Some(entry_views(v@)),
            None => None,
        }) == tag_entries(body@),
{
    let json = serde_json::from_str::<serde_json::Value>(body).ok()?;
    let entries = json.get("models")?.as_array()?;
    Some(entries.iter().map(|m| m.get("name").and_then(|n| n.as_str()).map(String::from)).collect())
}

/// The names present among `entries`, in order.
fn present_tags(entries: &Vec<Option<String>>) -> (r: Vec<String>)
    ensures
        r@.map_values(|t: String| t@) == present_names(entry_views(entries@)),
{
    let ghost all = entry_views(entries@);
    let mut out: Vec<String> = Vec::new();
    let mut i: usize = 0;
    while i < entries.len()
        invariant
            i <= entries@.len(),
            all == entry_views(entries@),
            out@.map_values(|t: String| t@) == present_names(all.take(i as int)),
        decreases entries.len() - i,
    {
        let ghost before = out@;
        assert(all.take(i + 1).drop_last() =~= all.take(i as int));
        match &entries[i] {
            Some(name) => {
                out.push(name.clone());
                assert(out@.map_values(|t: String| t@) =~= before.map_values(|t: String| t@).push(
                    name@,
                ));
            },
            None => {},
        }
        i += 1;
    }
    assert(all.take(entries@.len() as int) =~= all);
    out
}

impl ModelCatalog {
    /// Sets each model's downloaded flag from Ollama's /api/tags reply `body`:
    /// a model counts as downloaded when the name of some listed model begins
    /// with its name. A reply without a "models" array changes nothing; the
    /// result tells whether the reply had one.
    pub fn mark_from_tags_reply(&mut self, body: &str) -> (listed: bool)
        ensures
            listed == tag_entries(body@) is Some,
            tag_entries(body@) matches Some(e) ==> final(self)@ == old(self)@.map_values(
                |m: ModelView| m.with_downloaded(listed_among(present_names(e), m.name)),
            ),
            tag_entries(body@) is None ==> final(self)@ == old(self)@,
    {
        match read_tag_entries(body) {
            Some(entries) => {
                let tags = present_tags(&entries);
                self.mark_downloaded(&tags);
                true
            },
            None => false,
        }
    }
}

/// One entry of the built-in list of writing-focused models, not yet downloaded.
pub open spec fn writing_model_view(
    name: Seq<char>,
    display_name: Seq<char>,
    description: Seq<char>,
    size_tenths_gb: u32,
) -> ModelView {
    ModelView {
        name,
        display_name,
        description,
        downloaded: false,
        size_tenths_gb,
        writing_focused: true,
    }
}

/// The built-in list of writing-focused models.
pub open spec fn writing_model_views() -> Seq<ModelView> {
    seq![
        writing_model_view("llama3.2"@, "Llama 3.2 (8B)"@, "General purpose model with good writing capabilities"@, 47),
        writing_model_view("mistral"@, "Mistral 7B"@, "Excellent for grammar and style improvements"@, 41),
        writing_model_view("phi3:mini"@, "Phi-3 Mini"@, "Microsoft's small but capable writing assistant"@, 28),
        writing_model_view("gemma:2b"@, "Gemma 2B"@, "Fast and lightweight for basic writing assistance"@, 13),
        writing_model_view("neural-chat"@, "Neural Chat"@, "Optimized for conversational writing and flow"@, 41),
    ]
}

fn writing_model(name: &str, display_name: &str, description: &str, size_tenths_gb: u32) -> (r: ModelInfo)
    ensures
        r@ == writing_model_view(name@, display_name@, description@, size_tenths_gb),
{
    ModelInfo {
        name: name.to_owned(),
        display_name: display_name.to_owned(),
        description: description.to_owned(),
        downloaded: false,
        size_tenths_gb,
        writing_focused: true,
    }
}

/// The built-in list of writing-focused models, none of them downloaded yet.
pub fn writing_models() -> (r: Vec<ModelInfo>)
    ensures
        model_views(r@) == writing_model_views(),
{
    let mut r: Vec<ModelInfo> = Vec::new();
    r.push(writing_model("llama3.2", "Llama 3.2 (8B)", "General purpose model with good writing capabilities", 47));
    r.push(writing_model("mistral", "Mistral 7B", "Excellent for grammar and style improvements", 41));
    r.push(writing_model("phi3:mini", "Phi-3 Mini", "Microsoft's small but capable writing assistant", 28));
    r.push(writing_model("gemma:2b", "Gemma 2B", "Fast and lightweight for basic writing assistance", 13));
    r.push(writing_model("neural-chat", "Neural Chat", "Optimized for conversational writing and flow", 41));
    assert(model_views(r@) =~= writing_model_views());
    r
}

} // verus!
