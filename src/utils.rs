use vstd::prelude::*;

use crate::arch_map::ArchMap;
use crate::config::Config;
use crate::constants::{
    adapter_at, adapter_label, arch_catalog, has_archs, is_platform_label, lemma_platform_labels,
    platform_at, platform_label, platform_of, Adapter, Platform, ADAPTER_COUNT, PLATFORM_COUNT,
};
use crate::select::{strs, valid_picks, PromptView, SelectionPrompt};

verus! {

/// What `str::to_lowercase` makes of a string.
pub uninterp spec fn lower_of(s: Seq<char>) -> Seq<char>;

/// Relies on `str::to_lowercase`: the lowercase form of a string depends on
/// its characters alone.
#[verifier::external_body]
fn lowercase(s: &str) -> (r: String)
    ensures
        r@ == lower_of(s@),
{
    s.to_lowercase()
}

/// Whether `needle` occurs in `hay` at position `i`.
pub open spec fn occurs_at(hay: Seq<char>, needle: Seq<char>, i: int) -> bool {
    0 <= i && i + needle.len() <= hay.len() && hay.subrange(i, i + needle.len()) == needle
}

/// Whether `needle` occurs anywhere in `hay`.
pub open spec fn occurs_in(hay: Seq<char>, needle: Seq<char>) -> bool {
    exists|i: int| occurs_at(hay, needle, i)
}

fn chars_of(s: &str) -> (r: Vec<char>)
    ensures
        r@ == s@,
{
    let n = s.unicode_len();
    let mut r: Vec<char> = Vec::new();
    let mut i: usize = 0;
    while i < n
        invariant
            n == s@.len(),
            i <= n,
            r@ == s@.take(i as int),
        decreases n - i,
    {
        r.push(s.get_char(i));
        i = i + 1;
        assert(r@ =~= s@.take(i as int));
    }
    assert(r@ =~= s@);
    r
}

/// Whether the adapter's label occurs in an already lowercased path.
pub fn mentions_adapter(lowered: &str, adapter: Adapter) -> (r: bool)
    ensures
        r == occurs_in(lowered@, adapter_label(adapter)),
{
    let hay = chars_of(lowered);
    let needle = chars_of(adapter.as_str());
    let h = hay.len();
    let m = needle.len();
    if m == 0 {
        assert(hay@.subrange(0, 0) =~= needle@);
        assert(occurs_at(hay@, needle@, 0));
        return true;
    }
    if m > h {
        assert forall|i: int| !occurs_at(hay@, needle@, i) by {}
        return false;
    }
    let mut i: usize = 0;
    while i < h - m + 1
        invariant
            0 < m <= h,
            h == hay@.len(),
            m == needle@.len(),
            hay@ == lowered@,
            needle@ == adapter_label(adapter),
            i <= h - m + 1,
            forall|j: int| 0 <= j < i ==> !occurs_at(hay@, needle@, j),
        decreases h - m + 1 - i,
    {
        let mut k: usize = 0;
        let mut same = true;
        assert(hay@.subrange(i as int, i as int) =~= needle@.take(0));
        while k < m
            invariant
                i + m <= h,
                h == hay@.len(),
                m == needle@.len(),
                k <= m,
                same == (hay@.subrange(i as int, i + k) == needle@.take(k as int)),
            decreases m - k,
        {
            if same && hay[i + k] != needle[k] {
                assert(hay@.subrange(i as int, i + k + 1)[k as int] != needle@.take(k + 1)[k as int]);
                same = false;
            }
            proof {
                if same {
                    assert(hay@.subrange(i as int, i + k + 1) =~= needle@.take(k + 1));
                } else {
                    if hay@.subrange(i as int, i + k + 1) == needle@.take(k + 1) {
                        assert(hay@.subrange(i as int, i + k) =~= hay@.subrange(i as int, i + k + 1).take(k as int));
                        assert(needle@.take(k as int) =~= needle@.take(k + 1).take(k as int));
                    }
                }
            }
            k = k + 1;
        }
        assert(needle@.take(m as int) =~= needle@);
        if same {
            assert(occurs_at(hay@, needle@, i as int));
            return true;
        }
        i = i + 1;
    }
    assert forall|j: int| !occurs_at(hay@, needle@, j) by {
        if 0 <= j && j + m <= h {
            assert(j < i);
        }
    }
    false
}

/// Whether a path mentions the circom adapter, ignoring case.
pub fn contains_circom(path: &str) -> (r: bool)
    ensures
        r == occurs_in(lower_of(path@), adapter_label(Adapter::Circom)),
{
    let lowered = lowercase(path);
    mentions_adapter(lowered.as_str(), Adapter::Circom)
}

/// Whether a path mentions the halo2 adapter, ignoring case.
pub fn contains_halo2(path: &str) -> (r: bool)
    ensures
        r == occurs_in(lower_of(path@), adapter_label(Adapter::Halo2)),
{
    let lowered = lowercase(path);
    mentions_adapter(lowered.as_str(), Adapter::Halo2)
}

/// The adapters that a sequence of catalog positions names, in order.
pub open spec fn adapters_at(indices: Seq<usize>) -> Seq<Adapter> {
    indices.map_values(|s: usize| adapter_at(s as int))
}

/// The catalog positions of a sequence of adapters, in order.
pub open spec fn adapter_indices(adapters: Seq<Adapter>) -> Seq<usize> {
    adapters.map_values(|a: Adapter| a.index() as usize)
}

/// Whether every position is inside the adapter catalog.
pub open spec fn valid_adapter_indices(indices: Seq<usize>) -> bool {
    forall|i: int| 0 <= i < indices.len() ==> #[trigger] indices[i] < ADAPTER_COUNT
}

/// The adapter labels, in catalog order.
pub open spec fn adapter_catalog() -> Seq<Seq<char>> {
    Seq::new(ADAPTER_COUNT as nat, |i: int| adapter_label(adapter_at(i)))
}

/// The question that asks for the adapters: every catalog entry, none checked.
pub open spec fn adapter_prompt() -> PromptView {
    PromptView {
        title: "Pick the adapters you want to use (multiple selection with space)"@,
        empty_error: "No adapters selected. Use space to select an adapter"@,
        options: adapter_catalog(),
        defaults: Seq::new(ADAPTER_COUNT as nat, |i: int| false),
    }
}

/// The adapters chosen for a build, in the order they were picked.
pub struct AdapterSelector {
    adapters: Vec<Adapter>,
}

impl View for AdapterSelector {
    type V = Seq<Adapter>;

    closed spec fn view(&self) -> Seq<Adapter> {
        self.adapters@
    }
}

impl AdapterSelector {
    /// The selector holding the adapters at the given catalog positions.
    pub fn construct(selections: Vec<usize>) -> (r: Self)
        requires
            valid_adapter_indices(selections@),
        ensures
            r@ == adapters_at(selections@),
    {
        let mut adapters: Vec<Adapter> = Vec::new();
        let mut i: usize = 0;
        while i < selections.len()
            invariant
                valid_adapter_indices(selections@),
                i <= selections@.len(),
                adapters@ == adapters_at(selections@.take(i as int)),
            decreases selections@.len() - i,
        {
            adapters.push(Adapter::from_index(selections[i]));
            i = i + 1;
            assert(adapters@ =~= adapters_at(selections@.take(i as int)));
        }
        assert(selections@.take(i as int) =~= selections@);
        AdapterSelector { adapters }
    }

    /// The question to put to the user; its answer goes to `select`.
    pub fn prompt() -> (r: SelectionPrompt)
        ensures
            r@ == adapter_prompt(),
    {
        let mut options: Vec<String> = Vec::new();
        let mut defaults: Vec<bool> = Vec::new();
        let mut i: usize = 0;
        while i < ADAPTER_COUNT
            invariant
                i <= ADAPTER_COUNT,
                strs(options@) == adapter_catalog().take(i as int),
                defaults@ == Seq::new(i as nat, |j: int| false),
            decreases ADAPTER_COUNT - i,
        {
            let label = String::from_str(Adapter::from_index(i).as_str());
            assert(label@ == adapter_catalog()[i as int]);
            let ghost prev = options@;
            options.push(label);
            defaults.push(false);
            assert(strs(options@) =~= strs(prev).push(label@));
            i = i + 1;
            assert(strs(options@) =~= adapter_catalog().take(i as int));
            assert(defaults@ =~= Seq::new(i as nat, |j: int| false));
        }
        assert(adapter_catalog().take(i as int) =~= adapter_catalog());
        let r = SelectionPrompt {
            title: String::from_str(
                "Pick the adapters you want to use (multiple selection with space)",
            ),
            empty_error: String::from_str("No adapters selected. Use space to select an adapter"),
            options,
            defaults,
        };
        r
    }

    /// The selector for the user's answer to `prompt`.
    pub fn select(picks: Vec<usize>) -> (r: Self)
        requires
            valid_picks(picks@, ADAPTER_COUNT as nat),
        ensures
            r@ == adapters_at(picks@),
    {
        Self::construct(picks)
    }

    /// The catalog positions of the held adapters, in order.
    pub fn selections(&self) -> (r: Vec<usize>)
        ensures
            r@ == adapter_indices(self@),
    {
        let mut r: Vec<usize> = Vec::new();
        let mut i: usize = 0;
        while i < self.adapters.len()
            invariant
                i <= self@.len(),
                self@ == self.adapters@,
                r@ == adapter_indices(self@.take(i as int)),
            decreases self@.len() - i,
        {
            r.push(self.adapters[i].as_usize());
            i = i + 1;
            assert(r@ =~= adapter_indices(self@.take(i as int)));
        }
        assert(self@.take(i as int) =~= self@);
        r
    }

    /// Whether the adapter is among those held.
    pub fn contains(&self, adapter: Adapter) -> (r: bool)
        ensures
            r == self@.contains(adapter),
    {
        let mut i: usize = 0;
        while i < self.adapters.len()
            invariant
                i <= self@.len(),
                self@ == self.adapters@,
                forall|j: int| 0 <= j < i ==> self@[j] != adapter,
            decreases self@.len() - i,
        {
            if self.adapters[i] == adapter {
                assert(self@[i as int] == adapter);
                return true;
            }
            i = i + 1;
        }
        false
    }
}

/// Building a selector from catalog positions and reading its positions back
/// gives the same positions, in the same order.
pub proof fn lemma_selections_round_trip(indices: Seq<usize>)
    requires
        valid_adapter_indices(indices),
    ensures
        adapter_indices(adapters_at(indices)) == indices,
{
    assert(adapter_indices(adapters_at(indices)) =~= indices);
}

/// A selector built from catalog positions holds an adapter exactly when the
/// adapter's position is among them.
pub proof fn lemma_contains_iff_selected(indices: Seq<usize>, a: Adapter)
    requires
        valid_adapter_indices(indices),
    ensures
        adapters_at(indices).contains(a) <==> indices.contains(a.index() as usize),
{
    let s = adapters_at(indices);
    if s.contains(a) {
        let j = choose|j: int| 0 <= j < s.len() && s[j] == a;
        assert(indices[j] == a.index());
    }
    if indices.contains(a.index() as usize) {
        let j = choose|j: int| 0 <= j < indices.len() && indices[j] == a.index() as usize;
        assert(s[j] == a);
    }
}

/// The platforms that a sequence of labels names, in order.
pub open spec fn platforms_of(labels: Seq<String>) -> Seq<Platform> {
    labels.map_values(|s: String| platform_of(s@))
}

/// The platforms at a sequence of catalog positions, in order.
pub open spec fn platforms_at(indices: Seq<usize>) -> Seq<Platform> {
    indices.map_values(|i: usize| platform_at(i as int))
}

/// The platform labels, in catalog order.
pub open spec fn platform_catalog() -> Seq<Seq<char>> {
    Seq::new(PLATFORM_COUNT as nat, |i: int| platform_label(platform_at(i)))
}

/// Which catalog platforms start checked: those chosen last time.
pub open spec fn platform_defaults(chosen: Seq<Seq<char>>) -> Seq<bool> {
    Seq::new(PLATFORM_COUNT as nat, |i: int| chosen.contains(platform_label(platform_at(i))))
}

/// The question that asks for the platforms, given the labels chosen last time.
pub open spec fn platform_prompt(chosen: Seq<Seq<char>>) -> PromptView {
    PromptView {
        title: "Select platform(s) to build for (multiple selection with space)"@,
        empty_error: "No platforms selected. Please select at least one platform."@,
        options: platform_catalog(),
        defaults: platform_defaults(chosen),
    }
}

/// The question that asks for the architectures of one platform: its whole
/// catalog, every entry checked.
pub open spec fn arch_prompt(p: Platform) -> PromptView {
    PromptView {
        title: "Select "@ + platform_label(p) + " architecture(s) to compile (default: all)"@,
        empty_error: "No architectures selected for "@ + platform_label(p)
            + ". Please select at least one architecture."@,
        options: arch_catalog(p),
        defaults: Seq::new(arch_catalog(p).len(), |i: int| true),
    }
}

/// How many of the platforms are built per architecture.
pub open spec fn arch_count(ps: Seq<Platform>) -> nat
    decreases ps.len(),
{
    if ps.len() == 0 {
        0
    } else {
        arch_count(ps.drop_last()) + if has_archs(ps.last()) {
            1nat
        } else {
            0nat
        }
    }
}

/// The answer meant for platform `i`: answers come one per platform with
/// architectures, in the order of the platforms.
pub open spec fn pick_row(ps: Seq<Platform>, picks: Seq<Seq<usize>>, i: int) -> Seq<usize> {
    picks[arch_count(ps.take(i)) as int]
}

/// Whether each platform with architectures has a valid answer.
pub open spec fn rows_fit(ps: Seq<Platform>, picks: Seq<Seq<usize>>) -> bool {
    forall|i: int|
        0 <= i < ps.len() && has_archs(ps[i]) ==> valid_picks(
            #[trigger] pick_row(ps, picks, i),
            arch_catalog(ps[i]).len(),
        )
}

/// Whether `picks` answers the architecture questions of `ps`, one each.
pub open spec fn picks_fit(ps: Seq<Platform>, picks: Seq<Seq<usize>>) -> bool {
    picks.len() == arch_count(ps) && rows_fit(ps, picks)
}

/// The architecture labels at the picked catalog positions of a platform.
pub open spec fn picked_archs(p: Platform, row: Seq<usize>) -> Seq<Seq<char>> {
    row.map_values(|i: usize| arch_catalog(p)[i as int])
}

/// The architecture mapping that the answers give: each platform with
/// architectures maps to what was picked for it; a later occurrence of a
/// platform replaces an earlier one.
pub open spec fn resolve(ps: Seq<Platform>, picks: Seq<Seq<usize>>) -> Map<
    Seq<char>,
    Seq<Seq<char>>,
>
    decreases ps.len(),
{
    if ps.len() == 0 {
        Map::empty()
    } else {
        let rest = ps.drop_last();
        let m = resolve(rest, picks);
        if has_archs(ps.last()) {
            m.insert(
                platform_label(ps.last()),
                picked_archs(ps.last(), picks[arch_count(rest) as int]),
            )
        } else {
            m
        }
    }
}

/// The views of a sequence of answers.
pub open spec fn rows(v: Seq<Vec<usize>>) -> Seq<Seq<usize>> {
    v.map_values(|r: Vec<usize>| r@)
}

proof fn lemma_arch_count_step(ps: Seq<Platform>, i: int)
    requires
        0 <= i < ps.len(),
    ensures
        ps.take(i + 1).drop_last() == ps.take(i),
        ps.take(i + 1).last() == ps[i],
        arch_count(ps.take(i + 1)) == arch_count(ps.take(i)) + if has_archs(ps[i]) {
            1nat
        } else {
            0nat
        },
{
    assert(ps.take(i + 1).drop_last() =~= ps.take(i));
}

proof fn lemma_arch_count_mono(ps: Seq<Platform>, i: int, j: int)
    requires
        0 <= i <= j <= ps.len(),
    ensures
        arch_count(ps.take(i)) <= arch_count(ps.take(j)),
    decreases j - i,
{
    if i < j {
        lemma_arch_count_mono(ps, i, j - 1);
        lemma_arch_count_step(ps, j - 1);
    }
}

/// Whether `label` is among `labels`.
fn label_listed(labels: &Vec<String>, label: &str) -> (r: bool)
    ensures
        r == strs(labels@).contains(label@),
{
    let target = String::from_str(label);
    let mut i: usize = 0;
    while i < labels.len()
        invariant
            i <= labels@.len(),
            target@ == label@,
            forall|j: int| 0 <= j < i ==> labels@[j]@ != label@,
        decreases labels@.len() - i,
    {
        if labels[i] == target {
            assert(strs(labels@)[i as int] == label@);
            return true;
        }
        i = i + 1;
    }
    assert(!strs(labels@).contains(label@)) by {
        if strs(labels@).contains(label@) {
            let j = choose|j: int| 0 <= j < labels@.len() && strs(labels@)[j] == label@;
            assert(labels@[j]@ == label@);
        }
    }
    false
}

/// The platforms chosen for a build, in the order they were picked.
pub struct PlatformSelector {
    pub platforms: Vec<Platform>,
}

impl PlatformSelector {
    /// The selector holding the platforms that the labels name.
    pub fn construct(selections: Vec<String>) -> (r: Self)
        requires
            forall|i: int| 0 <= i < selections@.len() ==> is_platform_label(#[trigger] selections@[i]@),
        ensures
            r.platforms@ == platforms_of(selections@),
    {
        let mut platforms: Vec<Platform> = Vec::new();
        let mut i: usize = 0;
        while i < selections.len()
            invariant
                forall|i: int| 0 <= i < selections@.len() ==> is_platform_label(#[trigger] selections@[i]@),
                i <= selections@.len(),
                platforms@ == platforms_of(selections@.take(i as int)),
            decreases selections@.len() - i,
        {
            let p = match Platform::from_label(selections[i].as_str()) {
                Some(p) => p,
                None => {
                    assert(is_platform_label(selections@[i as int]@));
                    Platform::Web
                },
            };
            platforms.push(p);
            i = i + 1;
            assert(platforms@ =~= platforms_of(selections@.take(i as int)));
        }
        assert(selections@.take(i as int) =~= selections@);
        PlatformSelector { platforms }
    }

    /// The question to put to the user, with the platforms of the earlier
    /// configuration checked; its answer goes to `select`.
    pub fn prompt(config: &Config) -> (r: SelectionPrompt)
        ensures
            r@ == platform_prompt(strs(config.target_platforms@)),
    {
        let mut options: Vec<String> = Vec::new();
        let mut defaults: Vec<bool> = Vec::new();
        let ghost chosen = strs(config.target_platforms@);
        let mut i: usize = 0;
        while i < PLATFORM_COUNT
            invariant
                i <= PLATFORM_COUNT,
                chosen == strs(config.target_platforms@),
                strs(options@) == platform_catalog().take(i as int),
                defaults@ == platform_defaults(chosen).take(i as int),
            decreases PLATFORM_COUNT - i,
        {
            let label = Platform::from_index(i).as_str();
            let listed = label_listed(&config.target_platforms, label);
            let owned = String::from_str(label);
            let ghost prev = options@;
            options.push(owned);
            defaults.push(listed);
            assert(strs(options@) =~= strs(prev).push(owned@));
            i = i + 1;
            assert(strs(options@) =~= platform_catalog().take(i as int));
            assert(defaults@ =~= platform_defaults(chosen).take(i as int));
        }
        assert(platform_catalog().take(i as int) =~= platform_catalog());
        assert(platform_defaults(chosen).take(i as int) =~= platform_defaults(chosen));
        SelectionPrompt {
            title: String::from_str("Select platform(s) to build for (multiple selection with space)"),
            empty_error: String::from_str(
                "No platforms selected. Please select at least one platform.",
            ),
            options,
            defaults,
        }
    }

    /// The selector for the user's answer to `prompt`.
    pub fn select(picks: Vec<usize>) -> (r: Self)
        requires
            valid_picks(picks@, PLATFORM_COUNT as nat),
        ensures
            r.platforms@ == platforms_at(picks@),
    {
        let mut platforms: Vec<Platform> = Vec::new();
        let mut i: usize = 0;
        while i < picks.len()
            invariant
                valid_picks(picks@, PLATFORM_COUNT as nat),
                i <= picks@.len(),
                platforms@ == platforms_at(picks@.take(i as int)),
            decreases picks@.len() - i,
        {
            platforms.push(Platform::from_index(picks[i]));
            i = i + 1;
            assert(platforms@ =~= platforms_at(picks@.take(i as int)));
        }
        assert(picks@.take(i as int) =~= picks@);
        PlatformSelector { platforms }
    }

    /// Whether the held platforms are `platforms`, position by position: the
    /// same platforms in another order compare unequal.
    pub fn eq(&self, platforms: &Vec<Platform>) -> (r: bool)
        ensures
            r == (self.platforms@ == platforms@),
    {
        if self.platforms.len() != platforms.len() {
            return false;
        }
        let mut i: usize = 0;
        while i < platforms.len()
            invariant
                self.platforms@.len() == platforms@.len(),
                i <= platforms@.len(),
                forall|j: int| 0 <= j < i ==> self.platforms@[j] == platforms@[j],
            decreases platforms@.len() - i,
        {
            if self.platforms[i] != platforms[i] {
                return false;
            }
            i = i + 1;
        }
        assert(self.platforms@ =~= platforms@);
        true
    }

    /// Whether the platform is among those held.
    pub fn contains(&self, platform: Platform) -> (r: bool)
        ensures
            r == self.platforms@.contains(platform),
    {
        let mut i: usize = 0;
        while i < self.platforms.len()
            invariant
                i <= self.platforms@.len(),
                forall|j: int| 0 <= j < i ==> self.platforms@[j] != platform,
            decreases self.platforms@.len() - i,
        {
            if self.platforms[i] == platform {
                assert(self.platforms@[i as int] == platform);
                return true;
            }
            i = i + 1;
        }
        false
    }

    /// The question that asks for the architectures of `platform`.
    pub fn select_multi_archs(platform: Platform) -> (r: SelectionPrompt)
        ensures
            r@ == arch_prompt(platform),
    {
        let label = platform.as_str();
        let title = String::from_str("Select ").concat(label).concat(
            " architecture(s) to compile (default: all)",
        );
        let empty_error = String::from_str("No architectures selected for ").concat(label).concat(
            ". Please select at least one architecture.",
        );
        let options = platform.archs();
        let mut defaults: Vec<bool> = Vec::new();
        let mut i: usize = 0;
        while i < options.len()
            invariant
                i <= options@.len(),
                defaults@ == Seq::new(i as nat, |j: int| true),
            decreases options@.len() - i,
        {
            defaults.push(true);
            i = i + 1;
            assert(defaults@ =~= Seq::new(i as nat, |j: int| true));
        }
        assert(strs(options@) =~= arch_catalog(platform));
        SelectionPrompt { title, empty_error, options, defaults }
    }

    /// The architecture questions to put to the user: one per held platform
    /// with architectures, in the order of the platforms. Their answers, in
    /// the same order, go to `select_archs`.
    pub fn arch_prompts(&self) -> (r: Vec<SelectionPrompt>)
        ensures
            r@.len() == arch_count(self.platforms@),
            forall|i: int|
                0 <= i < self.platforms@.len() && has_archs(self.platforms@[i]) ==> (#[trigger] r@[arch_count(self.platforms@.take(i)) as int])@
                    == arch_prompt(self.platforms@[i]),
    {
        let ghost ps = self.platforms@;
        let mut r: Vec<SelectionPrompt> = Vec::new();
        let mut i: usize = 0;
        while i < self.platforms.len()
            invariant
                ps == self.platforms@,
                i <= ps.len(),
                r@.len() == arch_count(ps.take(i as int)),
                forall|k: int|
                    0 <= k < i && has_archs(ps[k]) ==> (#[trigger] r@[arch_count(ps.take(k)) as int])@
                        == arch_prompt(ps[k]),
            decreases ps.len() - i,
        {
            proof {
                lemma_arch_count_step(ps, i as int);
                assert forall|k: int| 0 <= k <= i implies arch_count(ps.take(k)) <= arch_count(ps.take(i as int)) by {
                    lemma_arch_count_mono(ps, k, i as int);
                }
                assert forall|k: int| 0 <= k < i implies arch_count(ps.take(k)) < arch_count(ps.take(i as int)) || !has_archs(ps[k]) by {
                    lemma_arch_count_step(ps, k);
                    lemma_arch_count_mono(ps, k + 1, i as int);
                }
            }
            let p = self.platforms[i];
            if p.has_archs() {
                r.push(Self::select_multi_archs(p));
            }
            i = i + 1;
        }
        assert(ps.take(i as int) =~= ps);
        r
    }

    /// The architecture mapping for the answers to `arch_prompts`, given in
    /// the same order.
    pub fn select_archs(&self, picks: &Vec<Vec<usize>>) -> (r: ArchMap)
        requires
            picks_fit(self.platforms@, rows(picks@)),
        ensures
            r.wf(),
            r@ == resolve(self.platforms@, rows(picks@)),
    {
        let ghost ps = self.platforms@;
        let ghost pk = rows(picks@);
        let mut archs = ArchMap::new();
        let n = picks.len();
        let mut i: usize = 0;
        let mut j: usize = 0;
        while i < self.platforms.len()
            invariant
                ps == self.platforms@,
                pk == rows(picks@),
                pk.len() == picks@.len(),
                n == picks@.len(),
                picks_fit(ps, pk),
                i <= ps.len(),
                j == arch_count(ps.take(i as int)),
                archs.wf(),
                archs@ == resolve(ps.take(i as int), pk),
            decreases ps.len() - i,
        {
            proof {
                lemma_arch_count_step(ps, i as int);
                lemma_arch_count_mono(ps, i as int + 1, ps.len() as int);
                assert(ps.take(ps.len() as int) =~= ps);
            }
            let p = self.platforms[i];
            if p.has_archs() {
                let row = &picks[j];
                assert(pick_row(ps, pk, i as int) == row@);
                let catalog = p.archs();
                let mut names: Vec<String> = Vec::new();
                let mut k: usize = 0;
                while k < row.len()
                    invariant
                        k <= row@.len(),
                        valid_picks(row@, arch_catalog(p).len()),
                        catalog@.len() == arch_catalog(p).len(),
                        forall|x: int| 0 <= x < catalog@.len() ==> #[trigger] catalog@[x]@ == arch_catalog(p)[x],
                        strs(names@) == picked_archs(p, row@.take(k as int)),
                    decreases row@.len() - k,
                {
                    let name = catalog[row[k]].clone();
                    let ghost prev = names@;
                    names.push(name);
                    assert(strs(names@) =~= strs(prev).push(name@));
                    k = k + 1;
                    assert(strs(names@) =~= picked_archs(p, row@.take(k as int)));
                }
                assert(row@.take(k as int) =~= row@);
                archs.insert(p, names);
                assert(j + 1 <= n);
                j = j + 1;
            }
            i = i + 1;
        }
        assert(ps.take(i as int) =~= ps);
        archs
    }
}

proof fn lemma_resolve_shape(ps: Seq<Platform>, picks: Seq<Seq<usize>>)
    requires
        arch_count(ps) <= picks.len(),
        rows_fit(ps, picks),
    ensures
        forall|k: Seq<char>|
            #[trigger] resolve(ps, picks).contains_key(k) <==> exists|i: int|
                0 <= i < ps.len() && has_archs(ps[i]) && platform_label(ps[i]) == k,
        forall|k: Seq<char>| #[trigger] resolve(ps, picks).contains_key(k) ==> resolve(ps, picks)[k].len() > 0,
    decreases ps.len(),
{
    if ps.len() > 0 {
        let n = ps.len() - 1;
        let rest = ps.drop_last();
        assert forall|i: int| 0 <= i < rest.len() && has_archs(rest[i]) implies valid_picks(
            #[trigger] pick_row(rest, picks, i),
            arch_catalog(rest[i]).len(),
        ) by {
            assert(rest.take(i) =~= ps.take(i));
            assert(pick_row(ps, picks, i) == pick_row(rest, picks, i));
        }
        lemma_resolve_shape(rest, picks);
        assert(ps.take(n) =~= rest);
        if has_archs(ps.last()) {
            assert(valid_picks(pick_row(ps, picks, n), arch_catalog(ps[n]).len()));
        }
        let m = resolve(ps, picks);
        assert forall|k: Seq<char>| m.contains_key(k) <==> exists|i: int|
            0 <= i < ps.len() && has_archs(ps[i]) && platform_label(ps[i]) == k by {
            if m.contains_key(k) {
                if !(has_archs(ps.last()) && k == platform_label(ps.last())) {
                    assert(resolve(rest, picks).contains_key(k));
                    let i = choose|i: int| 0 <= i < rest.len() && has_archs(rest[i]) && platform_label(rest[i]) == k;
                    assert(ps[i] == rest[i]);
                }
            }
            if exists|i: int| 0 <= i < ps.len() && has_archs(ps[i]) && platform_label(ps[i]) == k {
                let i = choose|i: int| 0 <= i < ps.len() && has_archs(ps[i]) && platform_label(ps[i]) == k;
                if i < n {
                    assert(rest[i] == ps[i]);
                    assert(resolve(rest, picks).contains_key(k));
                }
            }
        }
    }
}

/// The architecture mapping never has an entry for the web platform, its
/// keys are exactly the labels of the chosen platforms that have
/// architectures, and every entry lists at least one architecture.
pub proof fn lemma_resolved_archs(ps: Seq<Platform>, picks: Seq<Seq<usize>>)
    requires
        picks_fit(ps, picks),
    ensures
        !resolve(ps, picks).contains_key(platform_label(Platform::Web)),
        forall|k: Seq<char>|
            #[trigger] resolve(ps, picks).contains_key(k) <==> exists|i: int|
                0 <= i < ps.len() && has_archs(ps[i]) && platform_label(ps[i]) == k,
        forall|k: Seq<char>| #[trigger] resolve(ps, picks).contains_key(k) ==> resolve(ps, picks)[k].len() > 0,
{
    lemma_resolve_shape(ps, picks);
    lemma_platform_labels();
    if resolve(ps, picks).contains_key(platform_label(Platform::Web)) {
        let i = choose|i: int| 0 <= i < ps.len() && has_archs(ps[i]) && platform_label(ps[i]) == platform_label(Platform::Web);
        assert(platform_of(platform_label(ps[i])) == ps[i]);
    }
}

} // verus!
