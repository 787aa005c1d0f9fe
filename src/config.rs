use vstd::prelude::*;
use crate::text::{replace_all, replace_text, text_eq};

verus! {

/// How an entry's `objects` are matched.
#[derive(Debug, Clone, Copy, PartialEq, Eq, Structural)]
pub enum TypeConfig {
    String,
    Glob,
    Regex,
}

/// What a section is for; a label passed through to consumers.
#[derive(Debug, Clone, Copy, PartialEq, Eq, Structural)]
pub enum TypeTasks {
    Execute,
    Collect,
}

/// How an entry is carried out.
#[derive(Debug, Clone, Copy, PartialEq, Eq, Structural)]
pub enum TypeExec {
    External,
    Internal,
    System,
}

impl TypeConfig {
    pub open spec fn spec_name(self) -> Seq<char> {
        match self {
            TypeConfig::String => "string"@,
            TypeConfig::Glob => "glob"@,
            TypeConfig::Regex => "regex"@,
        }
    }

    pub open spec fn spec_from_name(s: Seq<char>) -> Option<TypeConfig> {
        if s == "string"@ {
            Some(TypeConfig::String)
        } else if s == "glob"@ {
            Some(TypeConfig::Glob)
        } else if s == "regex"@ {
            Some(TypeConfig::Regex)
        } else {
            None
        }
    }

    /// The manifest spelling of this match type.
    pub fn as_name(&self) -> (r: &'static str)
        ensures
            r@ == self.spec_name(),
    {
        match self {
            TypeConfig::String => "string",
            TypeConfig::Glob => "glob",
            TypeConfig::Regex => "regex",
        }
    }

    /// Reads a match type from its manifest spelling.
    pub fn from_name(s: &str) -> (r: Option<TypeConfig>)
        ensures
            r == Self::spec_from_name(s@),
    {
        if text_eq(s, "string") {
            Some(TypeConfig::String)
        } else if text_eq(s, "glob") {
            Some(TypeConfig::Glob)
        } else if text_eq(s, "regex") {
            Some(TypeConfig::Regex)
        } else {
            None
        }
    }
}

impl TypeTasks {
    pub open spec fn spec_name(self) -> Seq<char> {
        match self {
            TypeTasks::Execute => "execute"@,
            TypeTasks::Collect => "collect"@,
        }
    }

    pub open spec fn spec_from_name(s: Seq<char>) -> Option<TypeTasks> {
        if s == "execute"@ {
            Some(TypeTasks::Execute)
        } else if s == "collect"@ {
            Some(TypeTasks::Collect)
        } else {
            None
        }
    }

    /// The manifest spelling of this section type.
    pub fn as_name(&self) -> (r: &'static str)
        ensures
            r@ == self.spec_name(),
    {
        match self {
            TypeTasks::Execute => "execute",
            TypeTasks::Collect => "collect",
        }
    }

    /// Reads a section type from its manifest spelling.
    pub fn from_name(s: &str) -> (r: Option<TypeTasks>)
        ensures
            r == Self::spec_from_name(s@),
    {
        if text_eq(s, "execute") {
            Some(TypeTasks::Execute)
        } else if text_eq(s, "collect") {
            Some(TypeTasks::Collect)
        } else {
            None
        }
    }
}

impl TypeExec {
    pub open spec fn spec_name(self) -> Seq<char> {
        match self {
            TypeExec::External => "external"@,
            TypeExec::Internal => "internal"@,
            TypeExec::System => "system"@,
        }
    }

    pub open spec fn spec_from_name(s: Seq<char>) -> Option<TypeExec> {
        if s == "external"@ {
            Some(TypeExec::External)
        } else if s == "internal"@ {
            Some(TypeExec::Internal)
        } else if s == "system"@ {
            Some(TypeExec::System)
        } else {
            None
        }
    }

    /// The manifest spelling of this execution strategy.
    pub fn as_name(&self) -> (r: &'static str)
        ensures
            r@ == self.spec_name(),
    {
        match self {
            TypeExec::External => "external",
            TypeExec::Internal => "internal",
            TypeExec::System => "system",
        }
    }

    /// Reads an execution strategy from its manifest spelling.
    pub fn from_name(s: &str) -> (r: Option<TypeExec>)
        ensures
            r == Self::spec_from_name(s@),
    {
        if text_eq(s, "external") {
            Some(TypeExec::External)
        } else if text_eq(s, "internal") {
            Some(TypeExec::Internal)
        } else if text_eq(s, "system") {
            Some(TypeExec::System)
        } else {
            None
        }
    }
}

/// Reading back the spelling of each tag gives the same tag.
pub proof fn lemma_tag_names_round_trip(c: TypeConfig, t: TypeTasks, e: TypeExec)
    ensures
        TypeConfig::spec_from_name(c.spec_name()) == Some(c),
        TypeTasks::spec_from_name(t.spec_name()) == Some(t),
        TypeExec::spec_from_name(e.spec_name()) == Some(e),
{
    reveal_strlit("string");
    reveal_strlit("glob");
    reveal_strlit("regex");
    reveal_strlit("execute");
    reveal_strlit("collect");
    reveal_strlit("external");
    reveal_strlit("internal");
    reveal_strlit("system");
    assert("string"@.len() == 6 && "glob"@.len() == 4 && "regex"@.len() == 5);
    assert("execute"@[0] != "collect"@[0]);
    assert("external"@[0] != "internal"@[0]);
    assert("external"@.len() == 8 && "internal"@.len() == 8 && "system"@.len() == 6);
}


/// One collection item of a section.
#[derive(Debug)]
pub struct SearchConfig {
    pub dir_path: Option<String>,
    pub name: Option<String>,
    pub output_file: Option<String>,
    pub args: Option<Vec<String>>,
    pub objects: Option<Vec<String>>,
    pub max_size: Option<u64>,
    pub encrypt: Option<String>,
    pub kind: Option<TypeConfig>,
    pub exec_type: Option<TypeExec>,
}

/// A prioritised group of entries, each list filed under a category name.
#[derive(Debug)]
pub struct SectionConfig {
    pub priority: u8,
    pub kind: TypeTasks,
    pub entries: Vec<(String, Vec<SearchConfig>)>,
}

/// The whole manifest: named sections and the output file name template.
#[derive(Debug)]
pub struct Config {
    pub tasks: Vec<(String, SectionConfig)>,
    pub output_filename: String,
}

pub ghost struct SearchConfigView {
    pub dir_path: Option<Seq<char>>,
    pub name: Option<Seq<char>>,
    pub output_file: Option<Seq<char>>,
    pub args: Option<Seq<Seq<char>>>,
    pub objects: Option<Seq<Seq<char>>>,
    pub max_size: Option<u64>,
    pub encrypt: Option<Seq<char>>,
    pub kind: Option<TypeConfig>,
    pub exec_type: Option<TypeExec>,
}

pub ghost struct SectionView {
    pub priority: u8,
    pub kind: TypeTasks,
    pub entries: Seq<(Seq<char>, Seq<SearchConfigView>)>,
}

pub ghost struct ConfigView {
    pub tasks: Seq<(Seq<char>, SectionView)>,
    pub output_filename: Seq<char>,
}

pub open spec fn opt_text(o: Option<String>) -> Option<Seq<char>> {
    match o {
        Some(s) => Some(s@),
        None => None,
    }
}

pub open spec fn texts(v: Seq<String>) -> Seq<Seq<char>> {
    v.map_values(|s: String| s@)
}

pub open spec fn opt_texts(o: Option<Vec<String>>) -> Option<Seq<Seq<char>>> {
    match o {
        Some(v) => Some(texts(v@)),
        None => None,
    }
}

impl View for SearchConfig {
    type V = SearchConfigView;

    open spec fn view(&self) -> SearchConfigView {
        SearchConfigView {
            dir_path: opt_text(self.dir_path),
            name: opt_text(self.name),
            output_file: opt_text(self.output_file),
            args: opt_texts(self.args),
            objects: opt_texts(self.objects),
            max_size: self.max_size,
            encrypt: opt_text(self.encrypt),
            kind: self.kind,
            exec_type: self.exec_type,
        }
    }
}

pub open spec fn entry_list_view(v: Seq<SearchConfig>) -> Seq<SearchConfigView> {
    v.map_values(|c: SearchConfig| c@)
}

pub open spec fn categories_view(v: Seq<(String, Vec<SearchConfig>)>) -> Seq<(Seq<char>, Seq<SearchConfigView>)> {
    v.map_values(|c: (String, Vec<SearchConfig>)| (c.0@, entry_list_view(c.1@)))
}

impl View for SectionConfig {
    type V = SectionView;

    open spec fn view(&self) -> SectionView {
        SectionView { priority: self.priority, kind: self.kind, entries: categories_view(self.entries@) }
    }
}

pub open spec fn sections_view(v: Seq<(String, SectionConfig)>) -> Seq<(Seq<char>, SectionView)> {
    v.map_values(|t: (String, SectionConfig)| (t.0@, t.1@))
}

impl View for Config {
    type V = ConfigView;

    open spec fn view(&self) -> ConfigView {
        ConfigView { tasks: sections_view(self.tasks@), output_filename: self.output_filename@ }
    }
}

fn copy_text_opt(o: &Option<String>) -> (r: Option<String>)
    ensures
        opt_text(r) == opt_text(*o),
{
    match o {
        Some(s) => Some(s.clone()),
        None => None,
    }
}

pub(crate) fn copy_texts(v: &Vec<String>) -> (r: Vec<String>)
    ensures
        texts(r@) == texts(v@),
{
    let mut out: Vec<String> = Vec::new();
    let mut i: usize = 0;
    while i < v.len()
        invariant
            i <= v.len(),
            out@.len() == i,
            forall|k: int| 0 <= k < i ==> out@[k]@ == v@[k]@,
        decreases v.len() - i,
    {
        out.push(v[i].clone());
        i = i + 1;
    }
    assert(texts(out@) =~= texts(v@));
    out
}

fn copy_texts_opt(o: &Option<Vec<String>>) -> (r: Option<Vec<String>>)
    ensures
        opt_texts(r) == opt_texts(*o),
{
    match o {
        Some(v) => Some(copy_texts(v)),
        None => None,
    }
}

impl SearchConfig {
    /// A field-by-field copy.
    pub fn duplicate(&self) -> (r: SearchConfig)
        ensures
            r@ == self@,
    {
        SearchConfig {
            dir_path: copy_text_opt(&self.dir_path),
            name: copy_text_opt(&self.name),
            output_file: copy_text_opt(&self.output_file),
            args: copy_texts_opt(&self.args),
            objects: copy_texts_opt(&self.objects),
            max_size: self.max_size,
            encrypt: copy_text_opt(&self.encrypt),
            kind: self.kind,
            exec_type: self.exec_type,
        }
    }

    /// The entry's directory as written in the manifest, empty when absent.
    pub fn get_dir_path(&self) -> (r: String)
        ensures
            r@ == (match self.dir_path {
                Some(p) => p@,
                None => Seq::<char>::empty(),
            }),
    {
        match &self.dir_path {
            Some(path) => path.clone(),
            None => String::new(),
        }
    }
}

fn copy_entry_list(v: &Vec<SearchConfig>) -> (r: Vec<SearchConfig>)
    ensures
        entry_list_view(r@) == entry_list_view(v@),
{
    let mut out: Vec<SearchConfig> = Vec::new();
    let mut i: usize = 0;
    while i < v.len()
        invariant
            i <= v.len(),
            out@.len() == i,
            forall|k: int| 0 <= k < i ==> out@[k]@ == v@[k]@,
        decreases v.len() - i,
    {
        out.push(v[i].duplicate());
        i = i + 1;
    }
    assert(entry_list_view(out@) =~= entry_list_view(v@));
    out
}

impl SectionConfig {
    /// A copy of the section, categories and entries in the same order.
    pub fn duplicate(&self) -> (r: SectionConfig)
        ensures
            r@ == self@,
    {
        let mut out: Vec<(String, Vec<SearchConfig>)> = Vec::new();
        let mut i: usize = 0;
        while i < self.entries.len()
            invariant
                i <= self.entries.len(),
                out@.len() == i,
                forall|k: int|
                    0 <= k < i ==> out@[k].0@ == self.entries@[k].0@ && entry_list_view(out@[k].1@)
                        == entry_list_view(self.entries@[k].1@),
            decreases self.entries.len() - i,
        {
            out.push((self.entries[i].0.clone(), copy_entry_list(&self.entries[i].1)));
            i = i + 1;
        }
        assert(categories_view(out@) =~= categories_view(self.entries@));
        SectionConfig { priority: self.priority, kind: self.kind, entries: out }
    }
}


/// The sections of `s` whose priority is `p`, in their order in `s`.
pub open spec fn at_priority(s: Seq<(Seq<char>, SectionView)>, p: int) -> Seq<(Seq<char>, SectionView)>
    decreases s.len(),
{
    if s.len() == 0 {
        s
    } else if s.last().1.priority == p {
        at_priority(s.drop_last(), p).push(s.last())
    } else {
        at_priority(s.drop_last(), p)
    }
}

/// The sections of `s` whose priority is below `p`, by ascending priority,
/// equal priorities in their order in `s`.
pub open spec fn below_priority(s: Seq<(Seq<char>, SectionView)>, p: int) -> Seq<(Seq<char>, SectionView)>
    decreases p,
{
    if p <= 0 {
        Seq::empty()
    } else {
        below_priority(s, p - 1) + at_priority(s, p - 1)
    }
}

/// All sections of `s`, stably ordered by ascending priority.
pub open spec fn by_priority(s: Seq<(Seq<char>, SectionView)>) -> Seq<(Seq<char>, SectionView)> {
    below_priority(s, 256)
}

/// The number of entries over all categories of one section.
pub open spec fn category_entry_count(c: Seq<(Seq<char>, Seq<SearchConfigView>)>) -> nat
    decreases c.len(),
{
    if c.len() == 0 {
        0
    } else {
        category_entry_count(c.drop_last()) + c.last().1.len()
    }
}

/// The number of entries over all sections.
pub open spec fn task_entry_count(s: Seq<(Seq<char>, SectionView)>) -> nat
    decreases s.len(),
{
    if s.len() == 0 {
        0
    } else {
        task_entry_count(s.drop_last()) + category_entry_count(s.last().1.entries)
    }
}

/// The output template with `{{hostname}}` and then `{{datetime}}` substituted.
pub open spec fn expand_template(t: Seq<char>, host: Seq<char>, stamp: Seq<char>) -> Seq<char> {
    replace_all(replace_all(t, "{{hostname}}"@, host), "{{datetime}}"@, stamp)
}

proof fn lemma_at_priority_all(s: Seq<(Seq<char>, SectionView)>, p: int)
    ensures
        forall|k: int| 0 <= k < at_priority(s, p).len() ==> #[trigger] at_priority(s, p)[k].1.priority == p,
    decreases s.len(),
{
    if s.len() > 0 {
        lemma_at_priority_all(s.drop_last(), p);
    }
}

proof fn lemma_below_priority_sorted(s: Seq<(Seq<char>, SectionView)>, p: int)
    requires
        0 <= p,
    ensures
        forall|k: int| 0 <= k < below_priority(s, p).len() ==> #[trigger] below_priority(s, p)[k].1.priority < p,
        forall|i: int, j: int|
            0 <= i < j < below_priority(s, p).len() ==> #[trigger] below_priority(s, p)[i].1.priority
                <= #[trigger] below_priority(s, p)[j].1.priority,
    decreases p,
{
    if p > 0 {
        lemma_below_priority_sorted(s, p - 1);
        lemma_at_priority_all(s, p - 1);
        let a = below_priority(s, p - 1);
        let b = at_priority(s, p - 1);
        assert(below_priority(s, p) == a + b);
        assert forall|k: int| 0 <= k < (a + b).len() implies #[trigger] (a + b)[k].1.priority < p by {
            if k >= a.len() {
                assert((a + b)[k] == b[k - a.len()]);
            }
        }
        assert forall|i: int, j: int| 0 <= i < j < (a + b).len() implies #[trigger] (a + b)[i].1.priority
            <= #[trigger] (a + b)[j].1.priority by {
            if j < a.len() {
            } else if i >= a.len() {
                assert((a + b)[i] == b[i - a.len()]);
                assert((a + b)[j] == b[j - a.len()]);
            } else {
                assert((a + b)[j] == b[j - a.len()]);
            }
        }
    }
}

/// The sections handed to the scheduler come in non-decreasing priority order.
pub proof fn lemma_sections_in_priority_order(s: Seq<(Seq<char>, SectionView)>)
    ensures
        forall|i: int, j: int|
            0 <= i < j < by_priority(s).len() ==> #[trigger] by_priority(s)[i].1.priority
                <= #[trigger] by_priority(s)[j].1.priority,
{
    lemma_below_priority_sorted(s, 256);
}

/// The number of sections of `s` whose priority is below `p`.
pub open spec fn count_below(s: Seq<(Seq<char>, SectionView)>, p: int) -> nat
    decreases s.len(),
{
    if s.len() == 0 {
        0
    } else {
        count_below(s.drop_last(), p) + if s.last().1.priority < p {
            1nat
        } else {
            0nat
        }
    }
}

proof fn lemma_count_below_step(s: Seq<(Seq<char>, SectionView)>, p: int)
    ensures
        count_below(s, p + 1) == count_below(s, p) + at_priority(s, p).len(),
    decreases s.len(),
{
    if s.len() > 0 {
        lemma_count_below_step(s.drop_last(), p);
    }
}

proof fn lemma_count_below_ends(s: Seq<(Seq<char>, SectionView)>)
    ensures
        count_below(s, 0) == 0,
        count_below(s, 256) == s.len(),
    decreases s.len(),
{
    if s.len() > 0 {
        lemma_count_below_ends(s.drop_last());
    }
}

proof fn lemma_below_priority_len(s: Seq<(Seq<char>, SectionView)>, p: int)
    requires
        0 <= p,
    ensures
        below_priority(s, p).len() == count_below(s, p),
    decreases p,
{
    if p == 0 {
        lemma_count_below_ends(s);
    } else {
        lemma_below_priority_len(s, p - 1);
        lemma_count_below_step(s, p - 1);
    }
}

/// Ordering the sections by priority drops none of them: the result is as
/// long as the manifest's list of sections.
pub proof fn lemma_priority_order_keeps_sections(s: Seq<(Seq<char>, SectionView)>)
    ensures
        by_priority(s).len() == s.len(),
{
    lemma_below_priority_len(s, 256);
    lemma_count_below_ends(s);
}

/// How many sections of `s` satisfy `f`.
pub open spec fn count_where(s: Seq<(Seq<char>, SectionView)>, f: spec_fn((Seq<char>, SectionView)) -> bool) -> nat
    decreases s.len(),
{
    if s.len() == 0 {
        0
    } else {
        count_where(s.drop_last(), f) + if f(s.last()) {
            1nat
        } else {
            0nat
        }
    }
}

/// How many sections of `s` satisfy `f` and have a priority below `p`.
pub open spec fn count_where_below(
    s: Seq<(Seq<char>, SectionView)>,
    f: spec_fn((Seq<char>, SectionView)) -> bool,
    p: int,
) -> nat
    decreases s.len(),
{
    if s.len() == 0 {
        0
    } else {
        count_where_below(s.drop_last(), f, p) + if f(s.last()) && s.last().1.priority < p {
            1nat
        } else {
            0nat
        }
    }
}

/// No two sections of `s` share a name.
pub open spec fn unique_names(s: Seq<(Seq<char>, SectionView)>) -> bool {
    forall|i: int, j: int| 0 <= i < j < s.len() ==> #[trigger] s[i].0 != #[trigger] s[j].0
}

proof fn lemma_count_concat(
    a: Seq<(Seq<char>, SectionView)>,
    b: Seq<(Seq<char>, SectionView)>,
    f: spec_fn((Seq<char>, SectionView)) -> bool,
)
    ensures
        count_where(a + b, f) == count_where(a, f) + count_where(b, f),
    decreases b.len(),
{
    if b.len() > 0 {
        lemma_count_concat(a, b.drop_last(), f);
        assert((a + b).drop_last() == a + b.drop_last());
        assert((a + b).last() == b.last());
    } else {
        assert(a + b == a);
    }
}

proof fn lemma_count_where_below_step(
    s: Seq<(Seq<char>, SectionView)>,
    f: spec_fn((Seq<char>, SectionView)) -> bool,
    p: int,
)
    ensures
        count_where_below(s, f, p + 1) == count_where_below(s, f, p) + count_where(at_priority(s, p), f),
    decreases s.len(),
{
    if s.len() > 0 {
        lemma_count_where_below_step(s.drop_last(), f, p);
        let a = at_priority(s.drop_last(), p);
        assert(a.push(s.last()).drop_last() == a);
    }
}

proof fn lemma_count_where_below_ends(s: Seq<(Seq<char>, SectionView)>, f: spec_fn((Seq<char>, SectionView)) -> bool)
    ensures
        count_where_below(s, f, 0) == 0,
        count_where_below(s, f, 256) == count_where(s, f),
    decreases s.len(),
{
    if s.len() > 0 {
        lemma_count_where_below_ends(s.drop_last(), f);
    }
}

proof fn lemma_below_priority_count(
    s: Seq<(Seq<char>, SectionView)>,
    f: spec_fn((Seq<char>, SectionView)) -> bool,
    p: int,
)
    requires
        0 <= p,
    ensures
        count_where(below_priority(s, p), f) == count_where_below(s, f, p),
    decreases p,
{
    if p == 0 {
        lemma_count_where_below_ends(s, f);
    } else {
        lemma_below_priority_count(s, f, p - 1);
        lemma_count_where_below_step(s, f, p - 1);
        lemma_count_concat(below_priority(s, p - 1), at_priority(s, p - 1), f);
    }
}

proof fn lemma_count_positive(s: Seq<(Seq<char>, SectionView)>, f: spec_fn((Seq<char>, SectionView)) -> bool)
    ensures
        count_where(s, f) > 0 <==> exists|k: int| 0 <= k < s.len() && #[trigger] f(s[k]),
    decreases s.len(),
{
    if s.len() > 0 {
        let d = s.drop_last();
        lemma_count_positive(d, f);
        if count_where(d, f) > 0 {
            let k = choose|k: int| 0 <= k < d.len() && #[trigger] f(d[k]);
            assert(s[k] == d[k]);
        }
        if exists|k: int| 0 <= k < s.len() && #[trigger] f(s[k]) {
            let k = choose|k: int| 0 <= k < s.len() && #[trigger] f(s[k]);
            if k < s.len() - 1 {
                assert(d[k] == s[k]);
            }
        }
    }
}

proof fn lemma_count_two(s: Seq<(Seq<char>, SectionView)>, f: spec_fn((Seq<char>, SectionView)) -> bool, i: int, j: int)
    requires
        0 <= i < j < s.len(),
        f(s[i]),
        f(s[j]),
    ensures
        count_where(s, f) >= 2,
    decreases s.len(),
{
    let d = s.drop_last();
    assert(d[i] == s[i]);
    if j == s.len() - 1 {
        lemma_count_positive(d, f);
    } else {
        assert(d[j] == s[j]);
        lemma_count_two(d, f, i, j);
    }
}

proof fn lemma_unique_name_count(s: Seq<(Seq<char>, SectionView)>, n: Seq<char>)
    requires
        unique_names(s),
    ensures
        count_where(s, |t: (Seq<char>, SectionView)| t.0 == n) <= 1,
    decreases s.len(),
{
    let f = |t: (Seq<char>, SectionView)| t.0 == n;
    if s.len() > 0 {
        let d = s.drop_last();
        assert forall|i: int, j: int| 0 <= i < j < d.len() implies #[trigger] d[i].0 != #[trigger] d[j].0 by {
            assert(d[i] == s[i] && d[j] == s[j]);
        }
        lemma_unique_name_count(d, n);
        if f(s.last()) {
            lemma_count_positive(d, f);
            if count_where(d, f) > 0 {
                let k = choose|k: int| 0 <= k < d.len() && #[trigger] f(d[k]);
                assert(d[k] == s[k]);
                assert(s[k].0 == s[s.len() - 1].0);
            }
        }
    }
}

/// Ordering the sections by priority is a permutation: every property of a
/// section holds of as many sections after the ordering as before.
pub proof fn lemma_priority_order_is_permutation(s: Seq<(Seq<char>, SectionView)>)
    ensures
        forall|f: spec_fn((Seq<char>, SectionView)) -> bool|
            #[trigger] count_where(by_priority(s), f) == count_where(s, f),
{
    assert forall|f: spec_fn((Seq<char>, SectionView)) -> bool|
        #[trigger] count_where(by_priority(s), f) == count_where(s, f) by {
        lemma_below_priority_count(s, f, 256);
        lemma_count_where_below_ends(s, f);
    }
}

/// When section names are unique, the sections ordered by priority hold each
/// section of the manifest, with its name, priority and entries unchanged,
/// exactly once, and no other; their names stay unique.
pub proof fn lemma_sections_visited_once(s: Seq<(Seq<char>, SectionView)>)
    requires
        unique_names(s),
    ensures
        unique_names(by_priority(s)),
        by_priority(s).len() == s.len(),
        forall|k: int| 0 <= k < s.len() ==> exists|i: int| 0 <= i < by_priority(s).len() && by_priority(s)[i] == #[trigger] s[k],
        forall|i: int| 0 <= i < by_priority(s).len() ==> exists|k: int| 0 <= k < s.len() && s[k] == #[trigger] by_priority(s)[i],
{
    let b = by_priority(s);
    lemma_priority_order_is_permutation(s);
    lemma_priority_order_keeps_sections(s);
    assert forall|i: int, j: int| 0 <= i < j < b.len() implies #[trigger] b[i].0 != #[trigger] b[j].0 by {
        if b[i].0 == b[j].0 {
            let n = b[i].0;
            let f = |t: (Seq<char>, SectionView)| t.0 == n;
            lemma_count_two(b, f, i, j);
            assert(count_where(b, f) == count_where(s, f));
            lemma_unique_name_count(s, n);
        }
    }
    assert forall|k: int| 0 <= k < s.len() implies exists|i: int| 0 <= i < b.len() && b[i] == #[trigger] s[k] by {
        let x = s[k];
        let f = |t: (Seq<char>, SectionView)| t == x;
        lemma_count_positive(s, f);
        assert(f(s[k]));
        assert(count_where(b, f) == count_where(s, f));
        lemma_count_positive(b, f);
    }
    assert forall|i: int| 0 <= i < b.len() implies exists|k: int| 0 <= k < s.len() && s[k] == #[trigger] b[i] by {
        let x = b[i];
        let f = |t: (Seq<char>, SectionView)| t == x;
        lemma_count_positive(b, f);
        assert(f(b[i]));
        assert(count_where(b, f) == count_where(s, f));
        lemma_count_positive(s, f);
    }
}

proof fn lemma_category_count_prefix(c: Seq<(Seq<char>, Seq<SearchConfigView>)>, i: int)
    requires
        0 <= i <= c.len(),
    ensures
        category_entry_count(c.take(i)) <= category_entry_count(c),
    decreases c.len() - i,
{
    if i < c.len() {
        lemma_category_count_prefix(c, i + 1);
        assert(c.take(i + 1).drop_last() == c.take(i));
    } else {
        assert(c.take(i) == c);
    }
}

proof fn lemma_task_count_prefix(s: Seq<(Seq<char>, SectionView)>, i: int)
    requires
        0 <= i <= s.len(),
    ensures
        task_entry_count(s.take(i)) <= task_entry_count(s),
    decreases s.len() - i,
{
    if i < s.len() {
        lemma_task_count_prefix(s, i + 1);
        assert(s.take(i + 1).drop_last() == s.take(i));
    } else {
        assert(s.take(i) == s);
    }
}

/// Relies on hostname::get: the name the operating system gives this machine,
/// when it can be read and is valid Unicode.
#[verifier::external_body]
fn machine_hostname() -> (r: Option<String>) {
    hostname::get().ok().and_then(|h| h.into_string().ok())
}

/// The latest second, 9999-12-31 23:59:59 UTC, for which a stamp is asked.
pub const LAST_STAMP_SECOND: u64 = 253402300799;

/// Relies on std's SystemTime::duration_since (of SystemTime::now, from
/// UNIX_EPOCH): the whole seconds since the Unix epoch, or None when the
/// clock reads earlier than the epoch.
#[verifier::external_body]
fn clock_seconds() -> (r: Option<u64>) {
    std::time::SystemTime::now().duration_since(std::time::UNIX_EPOCH).ok().map(|d| d.as_secs())
}

/// Relies on chrono's DateTime::from_timestamp, its conversion to Local and
/// its formatter: the local time at `secs` seconds after the Unix epoch,
/// written as YYYY-MM-DD_HH-MM-SS, or None when chrono cannot represent it.
/// The local offset lookup still unwraps (offset/local/mod.rs, and
/// offset/local/unix.rs on Unix) when the zone data has no answer for the
/// time; `requires` keeps the time within years 1970 to 9999.
#[verifier::external_body]
fn local_stamp_at(secs: i64) -> (r: Option<String>)
    requires
        0 <= secs <= LAST_STAMP_SECOND,
{
    chrono::DateTime::from_timestamp(secs, 0)
        .map(|t| t.with_timezone(&chrono::Local).format("%Y-%m-%d_%H-%M-%S").to_string())
}

/// A character that a date stamp may hold.
pub open spec fn is_stamp_char(c: char) -> bool {
    ('0' <= c && c <= '9') || c == '-' || c == '_' || c == '+'
}

/// A date stamp: at least 19 characters, each a digit, `-`, `_` or `+`.
pub open spec fn is_stamp(s: Seq<char>) -> bool {
    s.len() >= 19 && forall|i: int| 0 <= i < s.len() ==> is_stamp_char(#[trigger] s[i])
}

/// The stamp used when the clock gives none.
pub open spec fn fallback_stamp() -> Seq<char> {
    "1970-01-01_00-00-00"@
}

/// Whether `v` reads as a date stamp.
fn reads_as_stamp(v: &str) -> (r: bool)
    ensures
        r == is_stamp(v@),
{
    let n = v.unicode_len();
    if n < 19 {
        return false;
    }
    let mut i: usize = 0;
    while i < n
        invariant
            n == v@.len(),
            i <= n,
            forall|k: int| 0 <= k < i ==> is_stamp_char(#[trigger] v@[k]),
        decreases n - i,
    {
        let c = v.get_char(i);
        if !(('0' <= c && c <= '9') || c == '-' || c == '_' || c == '+') {
            assert(!is_stamp_char(v@[i as int]));
            return false;
        }
        i = i + 1;
    }
    true
}

/// `s` when it reads as a date stamp, else the stamp of the Unix epoch.
pub fn stamp_or_fallback(s: Option<String>) -> (r: String)
    ensures
        is_stamp(r@),
        (s is Some && is_stamp(s->0@)) ==> r@ == s->0@,
        !(s is Some && is_stamp(s->0@)) ==> r@ == fallback_stamp(),
{
    proof {
        reveal_strlit("1970-01-01_00-00-00");
        assert(is_stamp(fallback_stamp()));
    }
    match s {
        Some(v) => if reads_as_stamp(v.as_str()) {
            v
        } else {
            String::from_str("1970-01-01_00-00-00")
        },
        None => String::from_str("1970-01-01_00-00-00"),
    }
}

/// The local time now as a date stamp, the stamp of the Unix epoch when the
/// clock cannot be read or formatted.
pub fn local_timestamp() -> (r: String)
    ensures
        is_stamp(r@),
{
    let formatted = match clock_seconds() {
        Some(secs) => if secs <= LAST_STAMP_SECOND {
            local_stamp_at(secs as i64)
        } else {
            None
        },
        None => None,
    };
    stamp_or_fallback(formatted)
}

/// Substitutes the `{{hostname}}` and `{{datetime}}` tokens of `template`;
/// a missing host name reads `machine`. Other tokens stay as they are.
pub fn expand_output_filename(template: &str, hostname: Option<String>, datetime: &str) -> (r: String)
    ensures
        r@ == expand_template(
            template@,
            match hostname {
                Some(h) => h@,
                None => "machine"@,
            },
            datetime@,
        ),
{
    let host = match hostname {
        Some(h) => h,
        None => String::from_str("machine"),
    };
    proof {
        reveal_strlit("{{hostname}}");
        reveal_strlit("{{datetime}}");
    }
    let step = replace_text(template, "{{hostname}}", host.as_str());
    replace_text(step.as_str(), "{{datetime}}", datetime)
}

impl Config {
    /// The output file name, with this machine's name and the local time now
    /// substituted into the template.
    pub fn get_output_filename(&self) -> (r: String)
        ensures
            exists|host: Seq<char>, stamp: Seq<char>|
                is_stamp(stamp) && r@ == expand_template(self.output_filename@, host, stamp),
    {
        let host = machine_hostname();
        let stamp = local_timestamp();
        let ghost h = if host is Some {
            host->0@
        } else {
            "machine"@
        };
        let r = expand_output_filename(self.output_filename.as_str(), host, stamp.as_str());
        assert(is_stamp(stamp@) && r@ == expand_template(self.output_filename@, h, stamp@));
        r
    }

    /// The sections with their names, ordered by ascending priority; sections
    /// of equal priority keep their manifest order.
    pub fn get_tasks(&self) -> (r: Vec<(String, SectionConfig)>)
        ensures
            sections_view(r@) == by_priority(self@.tasks),
    {
        let ghost s = self@.tasks;
        let mut out: Vec<(String, SectionConfig)> = Vec::new();
        let mut p: u16 = 0;
        while p < 256
            invariant
                p <= 256,
                s == self@.tasks,
                sections_view(out@) == below_priority(s, p as int),
            decreases 256 - p,
        {
            let mut i: usize = 0;
            while i < self.tasks.len()
                invariant
                    p < 256,
                    i <= self.tasks.len(),
                    s == self@.tasks,
                    s.len() == self.tasks@.len(),
                    sections_view(out@) == below_priority(s, p as int) + at_priority(s.take(i as int), p as int),
                decreases self.tasks.len() - i,
            {
                assert(s.take(i + 1).drop_last() == s.take(i as int));
                assert(s.take(i + 1).last() == s[i as int]);
                if self.tasks[i].1.priority as u16 == p {
                    let item = (self.tasks[i].0.clone(), self.tasks[i].1.duplicate());
                    let ghost before = out@;
                    out.push(item);
                    assert(sections_view(out@) == sections_view(before).push((item.0@, item.1@)));
                    assert(sections_view(out@) == below_priority(s, p as int) + at_priority(s.take(i + 1), p as int));
                }
                i = i + 1;
            }
            assert(s.take(self.tasks.len() as int) == s);
            p = p + 1;
        }
        out
    }

    /// The number of entries over all sections and categories.
    pub fn tasks_entries_len(&self) -> (r: u64)
        requires
            task_entry_count(self@.tasks) <= u64::MAX,
        ensures
            r == task_entry_count(self@.tasks),
    {
        let ghost s = self@.tasks;
        let mut len: u64 = 0;
        let mut i: usize = 0;
        while i < self.tasks.len()
            invariant
                i <= self.tasks.len(),
                s == self@.tasks,
                s.len() == self.tasks@.len(),
                task_entry_count(s) <= u64::MAX,
                len == task_entry_count(s.take(i as int)),
            decreases self.tasks.len() - i,
        {
            let section = &self.tasks[i].1;
            let ghost c = s[i as int].1.entries;
            proof {
                assert(s.take(i + 1).drop_last() == s.take(i as int));
                lemma_task_count_prefix(s, i + 1);
            }
            let mut j: usize = 0;
            while j < section.entries.len()
                invariant
                    j <= section.entries.len(),
                    c == section@.entries,
                    c.len() == section.entries@.len(),
                    task_entry_count(s.take(i as int)) + category_entry_count(c) <= u64::MAX,
                    len == task_entry_count(s.take(i as int)) + category_entry_count(c.take(j as int)),
                decreases section.entries.len() - j,
            {
                proof {
                    assert(c.take(j + 1).drop_last() == c.take(j as int));
                    lemma_category_count_prefix(c, j + 1);
                }
                len = len + section.entries[j].1.len() as u64;
                j = j + 1;
            }
            assert(c.take(section.entries.len() as int) == c);
            i = i + 1;
        }
        assert(s.take(self.tasks.len() as int) == s);
        len
    }
}

} // verus!
