use crate::metadata::{
    eq_ignore_ascii_case, eq_ignore_case, level_from_name, level_index, Level, Metadata,
    MetadataView,
};
use crate::text::{has_prefix, seq_views, split, split_seq, trim, trim_seq};
use vstd::prelude::*;

verus! {

/// Threshold of a directive: `Off` lets nothing through, `Trace` everything.
#[derive(Clone, Copy, Debug, PartialEq, Eq, Structural, PartialOrd, Ord)]
pub enum LevelFilter {
    Off,
    Crash,
    Error,
    Warn,
    Info,
    Debug,
    Trace,
}

pub open spec fn filter_rank(f: LevelFilter) -> nat {
    match f {
        LevelFilter::Off => 0,
        LevelFilter::Crash => 1,
        LevelFilter::Error => 2,
        LevelFilter::Warn => 3,
        LevelFilter::Info => 4,
        LevelFilter::Debug => 5,
        LevelFilter::Trace => 6,
    }
}

/// The threshold that lets through exactly the levels at least as severe as `l`.
pub open spec fn level_filter_of(l: Level) -> LevelFilter {
    match l {
        Level::Crash => LevelFilter::Crash,
        Level::Error => LevelFilter::Error,
        Level::Warn => LevelFilter::Warn,
        Level::Info => LevelFilter::Info,
        Level::Debug => LevelFilter::Debug,
        Level::Trace => LevelFilter::Trace,
    }
}

/// `OFF` or a level name, ignoring ASCII case.
pub open spec fn level_filter_from_name(s: Seq<char>) -> Option<LevelFilter> {
    if eq_ignore_case(s, "OFF"@) {
        Some(LevelFilter::Off)
    } else {
        match level_from_name(s) {
            Some(l) => Some(level_filter_of(l)),
            None => None,
        }
    }
}

/// Error returned for a malformed threshold or directive.
#[derive(Debug)]
pub struct FilterParseError;

impl LevelFilter {
    /// The most permissive threshold.
    pub fn max() -> (r: LevelFilter)
        ensures
            r == LevelFilter::Trace,
    {
        LevelFilter::Trace
    }

    pub fn rank(&self) -> (r: usize)
        ensures
            r == filter_rank(*self),
    {
        match self {
            LevelFilter::Off => 0,
            LevelFilter::Crash => 1,
            LevelFilter::Error => 2,
            LevelFilter::Warn => 3,
            LevelFilter::Info => 4,
            LevelFilter::Debug => 5,
            LevelFilter::Trace => 6,
        }
    }

    pub fn from_level(level: Level) -> (r: LevelFilter)
        ensures
            r == level_filter_of(level),
    {
        match level {
            Level::Crash => LevelFilter::Crash,
            Level::Error => LevelFilter::Error,
            Level::Warn => LevelFilter::Warn,
            Level::Info => LevelFilter::Info,
            Level::Debug => LevelFilter::Debug,
            Level::Trace => LevelFilter::Trace,
        }
    }

    /// Parses `OFF` or a level name, ignoring ASCII case.
    pub fn parse_name(s: &str) -> (r: Result<LevelFilter, FilterParseError>)
        ensures
            r matches Ok(f) ==> level_filter_from_name(s@) == Some(f),
            r is Err <==> level_filter_from_name(s@) is None,
    {
        if eq_ignore_ascii_case(s, "OFF") {
            Ok(LevelFilter::Off)
        } else {
            match Level::parse_name(s) {
                Ok(l) => Ok(LevelFilter::from_level(l)),
                Err(_) => Err(FilterParseError),
            }
        }
    }
}

impl From<Level> for LevelFilter {
    fn from(level: Level) -> (r: LevelFilter) {
        LevelFilter::from_level(level)
    }
}

impl vstd::std_specs::convert::FromSpecImpl<Level> for LevelFilter {
    open spec fn obeys_from_spec() -> bool {
        true
    }

    open spec fn from_spec(v: Level) -> LevelFilter {
        level_filter_of(v)
    }
}

impl core::str::FromStr for LevelFilter {
    type Err = FilterParseError;

    fn from_str(s: &str) -> Result<LevelFilter, FilterParseError> {
        LevelFilter::parse_name(s)
    }
}

/// A directive as plain values: a module prefix (none for a global
/// directive) and a threshold.
pub struct DirectiveView {
    pub name: Option<Seq<char>>,
    pub level: LevelFilter,
}

/// One rule of a filter.
#[derive(Debug, Clone)]
pub struct Directive {
    name: Option<String>,
    level: LevelFilter,
}

impl View for Directive {
    type V = DirectiveView;

    closed spec fn view(&self) -> DirectiveView {
        DirectiveView {
            name: match self.name {
                Some(n) => Some(n@),
                None => None,
            },
            level: self.level,
        }
    }
}

/// What `Directive::parse` makes of one directive string: `module=level`,
/// `module=` (all levels), `level` (global) or a bare module name (all levels).
pub open spec fn parse_directive(s: Seq<char>) -> Option<DirectiveView> {
    let parts = split_seq(s, '=');
    if parts.len() == 1 {
        let x = trim_seq(parts[0]);
        match level_filter_from_name(x) {
            Some(l) => Some(DirectiveView { name: None, level: l }),
            None => Some(DirectiveView { name: Some(x), level: LevelFilter::Trace }),
        }
    } else if parts.len() == 2 {
        let name = trim_seq(parts[0]);
        let lv = trim_seq(parts[1]);
        if lv.len() == 0 {
            Some(DirectiveView { name: Some(name), level: LevelFilter::Trace })
        } else {
            match level_filter_from_name(lv) {
                Some(l) => Some(DirectiveView { name: Some(name), level: l }),
                None => None,
            }
        }
    } else {
        None
    }
}

impl Directive {
    pub fn new(name: Option<&str>, level: LevelFilter) -> (r: Directive)
        ensures
            r@.level == level,
            r@.name == (match name {
                Some(n) => Some(n@),
                None => None::<Seq<char>>,
            }),
    {
        let name = match name {
            Some(n) => Some(n.to_owned()),
            None => None,
        };
        Directive { name, level }
    }

    pub fn duplicate(&self) -> (r: Directive)
        ensures
            r@ == self@,
    {
        let name = match &self.name {
            Some(n) => Some(n.clone()),
            None => None,
        };
        Directive { name, level: self.level }
    }

    /// Number of characters of the module prefix; 0 for a global directive.
    pub fn name_len(&self) -> (r: usize)
        ensures
            r == name_len(self@),
    {
        match &self.name {
            Some(n) => n.as_str().unicode_len(),
            None => 0,
        }
    }

    /// Parses one directive string.
    pub fn parse(s: &str) -> (r: Result<Directive, FilterParseError>)
        ensures
            r matches Ok(d) ==> parse_directive(s@) == Some(d@),
            r is Err <==> parse_directive(s@) is None,
    {
        let parts = split(s, '=');
        proof {
            crate::text::lemma_split_nonempty(s@, '=');
        }
        assert(parts@[0]@ == split_seq(s@, '=')[0]);
        if parts.len() == 1 {
            let x = trim(parts[0]);
            match LevelFilter::parse_name(x) {
                Ok(l) => Ok(Directive { name: None, level: l }),
                Err(_) => Ok(Directive { name: Some(x.to_owned()), level: LevelFilter::max() }),
            }
        } else if parts.len() == 2 {
            assert(parts@[1]@ == split_seq(s@, '=')[1]);
            let name = trim(parts[0]);
            let lv = trim(parts[1]);
            if lv.unicode_len() == 0 {
                Ok(Directive { name: Some(name.to_owned()), level: LevelFilter::max() })
            } else {
                match LevelFilter::parse_name(lv) {
                    Ok(l) => Ok(Directive { name: Some(name.to_owned()), level: l }),
                    Err(e) => Err(e),
                }
            }
        } else {
            Err(FilterParseError)
        }
    }
}

pub open spec fn directive_views(s: Seq<Directive>) -> Seq<DirectiveView> {
    s.map_values(|d: Directive| d@)
}

pub open spec fn name_len(d: DirectiveView) -> nat {
    match d.name {
        Some(n) => n.len(),
        None => 0,
    }
}

/// Whether a directive applies to a module path.
pub open spec fn directive_matches(d: DirectiveView, path: Seq<char>) -> bool {
    match d.name {
        Some(n) => n.is_prefix_of(path),
        None => true,
    }
}

/// Whether a directive's threshold lets an event of the given level through.
pub open spec fn admits(d: DirectiveView, level: Level) -> bool {
    level_index(level) + 1 <= filter_rank(d.level)
}

/// The decision of a directive list: scanning from the last directive, the
/// first one that applies to `path` decides; when none applies, the event is
/// disabled.
pub open spec fn decide(ds: Seq<DirectiveView>, path: Seq<char>, level: Level) -> bool
    decreases ds.len(),
{
    if ds.len() == 0 {
        false
    } else if directive_matches(ds.last(), path) {
        admits(ds.last(), level)
    } else {
        decide(ds.drop_last(), path, level)
    }
}

pub open spec fn sorted_by_len(ds: Seq<DirectiveView>) -> bool {
    forall|i: int, j: int| 0 <= i <= j < ds.len() ==> name_len(ds[i]) <= name_len(ds[j])
}

/// A compiled set of directives, sorted by prefix length so that a scan from
/// the end meets the most specific directive first.
#[derive(Debug, Clone)]
pub struct StandardFilter {
    directives: Vec<Directive>,
}

impl View for StandardFilter {
    type V = Seq<DirectiveView>;

    closed spec fn view(&self) -> Seq<DirectiveView> {
        directive_views(self.directives@)
    }
}

/// Decides whether events described by some metadata are to be recorded.
pub trait Filter {
    spec fn accepts(&self, m: MetadataView) -> bool;

    fn enabled(&self, metadata: &Metadata) -> (r: bool)
        ensures
            r == self.accepts(metadata@),
    ;
}

impl StandardFilter {
    pub open spec fn wf(&self) -> bool {
        sorted_by_len(self@)
    }

    /// A copy of the filter.
    pub fn duplicate(&self) -> (r: StandardFilter)
        ensures
            r@ == self@,
    {
        let mut out: Vec<Directive> = Vec::new();
        let mut i: usize = 0;
        while i < self.directives.len()
            invariant
                i <= self@.len(),
                directive_views(out@) == self@.subrange(0, i as int),
            decreases self@.len() - i,
        {
            let d = self.directives[i].duplicate();
            let ghost before = out@;
            out.push(d);
            assert(directive_views(out@) =~= directive_views(before).push(d@));
            assert(self@.subrange(0, i + 1) =~= self@.subrange(0, i as int).push(self@[i as int]));
            i = i + 1;
        }
        assert(self@.subrange(0, i as int) =~= self@);
        StandardFilter { directives: out }
    }

    pub fn builder() -> (r: StandardFilterBuilder)
        ensures
            r@ == Seq::<DirectiveView>::empty(),
    {
        StandardFilterBuilder::new()
    }
}

impl Filter for StandardFilter {
    open spec fn accepts(&self, m: MetadataView) -> bool {
        decide(self@, m.module_name, m.level)
    }

    fn enabled(&self, metadata: &Metadata) -> (r: bool) {
        let path = metadata.module_name();
        let level = metadata.level();
        let mut i = self.directives.len();
        assert(self@.subrange(0, i as int) =~= self@);
        while i > 0
            invariant
                i <= self@.len(),
                path@ == metadata@.module_name,
                level == metadata@.level,
                decide(self@, path@, level) == decide(self@.subrange(0, i as int), path@, level),
            decreases i,
        {
            let d = &self.directives[i - 1];
            assert(self@.subrange(0, i as int).drop_last() =~= self@.subrange(0, i - 1));
            assert(self@.subrange(0, i as int).last() == d@);
            let applies = match &d.name {
                Some(name) => has_prefix(path, name.as_str()),
                None => true,
            };
            assert(applies == directive_matches(d@, path@));
            if applies {
                assert(decide(self@.subrange(0, i as int), path@, level) == admits(d@, level));
                assert(d@.level == d.level);
                assert(filter_rank(level_filter_of(level)) == level_index(level) + 1);
                return LevelFilter::from_level(level).rank() <= d.level.rank();
            }
            i = i - 1;
        }
        false
    }
}

/// Inserts `d` after every directive whose prefix is not longer.
pub open spec fn insert_sorted(ss: Seq<DirectiveView>, d: DirectiveView) -> Seq<DirectiveView>
    decreases ss.len(),
{
    if ss.len() == 0 {
        seq![d]
    } else if name_len(ss.last()) <= name_len(d) {
        ss.push(d)
    } else {
        insert_sorted(ss.drop_last(), d).push(ss.last())
    }
}

/// Stable sort of directives by prefix length.
pub open spec fn sort_by_len(ds: Seq<DirectiveView>) -> Seq<DirectiveView>
    decreases ds.len(),
{
    if ds.len() == 0 {
        ds
    } else {
        insert_sorted(sort_by_len(ds.drop_last()), ds.last())
    }
}

/// The global directive that a filter built from no directives holds.
pub open spec fn default_directive() -> DirectiveView {
    DirectiveView { name: None, level: LevelFilter::Error }
}

/// The directives of the filter built from `ds`.
pub open spec fn built(ds: Seq<DirectiveView>) -> Seq<DirectiveView> {
    if ds.len() == 0 {
        seq![default_directive()]
    } else {
        sort_by_len(ds)
    }
}

/// The directives that a comma-separated list yields, malformed ones left out.
pub open spec fn parsed_directives(pieces: Seq<Seq<char>>) -> Seq<DirectiveView>
    decreases pieces.len(),
{
    if pieces.len() == 0 {
        Seq::empty()
    } else {
        let rest = parsed_directives(pieces.drop_last());
        match parse_directive(pieces.last()) {
            Some(d) => rest.push(d),
            None => rest,
        }
    }
}

pub proof fn lemma_insert_sorted_at(ss: Seq<DirectiveView>, d: DirectiveView, p: int)
    requires
        0 <= p <= ss.len(),
        p == 0 || name_len(ss[p - 1]) <= name_len(d),
        forall|k: int| p <= k < ss.len() ==> name_len(#[trigger] ss[k]) > name_len(d),
    ensures
        insert_sorted(ss, d) == ss.insert(p, d),
    decreases ss.len(),
{
    if ss.len() == 0 {
        assert(ss.insert(p, d) =~= seq![d]);
    } else if name_len(ss.last()) <= name_len(d) {
        assert(ss.insert(p, d) =~= ss.push(d));
    } else {
        lemma_insert_sorted_at(ss.drop_last(), d, p);
        assert(ss.drop_last().insert(p, d).push(ss.last()) =~= ss.insert(p, d));
    }
}

pub proof fn lemma_insert_sorted_sorted(ss: Seq<DirectiveView>, d: DirectiveView)
    requires
        sorted_by_len(ss),
    ensures
        sorted_by_len(insert_sorted(ss, d)),
        insert_sorted(ss, d).len() == ss.len() + 1,
        exists|p: int| 0 <= p <= ss.len() && insert_sorted(ss, d) == ss.insert(p, d),
    decreases ss.len(),
{
    if ss.len() == 0 {
        assert(ss.insert(0, d) =~= seq![d]);
    } else if name_len(ss.last()) <= name_len(d) {
        assert(ss.insert(ss.len() as int, d) =~= ss.push(d));
    } else {
        let rest = ss.drop_last();
        lemma_insert_sorted_sorted(rest, d);
        let p = choose|p: int| 0 <= p <= rest.len() && insert_sorted(rest, d) == rest.insert(p, d);
        assert(rest.insert(p, d).push(ss.last()) =~= ss.insert(p, d));
        let r = insert_sorted(ss, d);
        assert forall|i: int, j: int| 0 <= i <= j < r.len() implies name_len(r[i]) <= name_len(
            r[j],
        ) by {
            if j == r.len() - 1 && i < j {
                if i < p {
                    assert(r[i] == ss[i]);
                } else if i == p {
                    assert(r[i] == d);
                } else {
                    assert(r[i] == ss[i - 1]);
                }
            }
        }
    }
}

pub proof fn lemma_sort_by_len_sorted(ds: Seq<DirectiveView>)
    ensures
        sorted_by_len(sort_by_len(ds)),
        sort_by_len(ds).len() == ds.len(),
    decreases ds.len(),
{
    if ds.len() > 0 {
        lemma_sort_by_len_sorted(ds.drop_last());
        lemma_insert_sorted_sorted(sort_by_len(ds.drop_last()), ds.last());
    }
}

/// Index of the last directive of `ds` that applies to `path`.
pub open spec fn last_match(ds: Seq<DirectiveView>, path: Seq<char>) -> Option<int>
    decreases ds.len(),
{
    if ds.len() == 0 {
        None
    } else if directive_matches(ds.last(), path) {
        Some(ds.len() - 1)
    } else {
        last_match(ds.drop_last(), path)
    }
}

/// The decision for a module path is made by one directive alone: the last
/// one that applies to the path. In a list sorted by prefix length, as every
/// built filter is, that directive has the longest prefix among those that
/// apply. When none applies, the event is disabled.
pub proof fn lemma_longest_match_decides(ds: Seq<DirectiveView>, path: Seq<char>, level: Level)
    ensures
        match last_match(ds, path) {
            None => !decide(ds, path, level) && forall|k: int|
                0 <= k < ds.len() ==> !directive_matches(#[trigger] ds[k], path),
            Some(j) => {
                &&& 0 <= j < ds.len()
                &&& directive_matches(ds[j], path)
                &&& decide(ds, path, level) == admits(ds[j], level)
                &&& forall|k: int| j < k < ds.len() ==> !directive_matches(#[trigger] ds[k], path)
                &&& sorted_by_len(ds) ==> forall|k: int|
                    0 <= k < ds.len() && directive_matches(#[trigger] ds[k], path) ==> name_len(
                        ds[k],
                    ) <= name_len(ds[j])
            },
        },
    decreases ds.len(),
{
    if ds.len() > 0 {
        let n = ds.len() - 1;
        if directive_matches(ds.last(), path) {
            if sorted_by_len(ds) {
                assert forall|k: int|
                    0 <= k < ds.len() && directive_matches(#[trigger] ds[k], path) implies name_len(
                    ds[k],
                ) <= name_len(ds[n]) by {}
            }
        } else {
            let rest = ds.drop_last();
            lemma_longest_match_decides(rest, path, level);
            assert forall|k: int| 0 <= k < rest.len() implies #[trigger] rest[k] == ds[k] by {}
            if sorted_by_len(ds) {
                assert(sorted_by_len(rest)) by {
                    assert forall|i: int, j: int| 0 <= i <= j < rest.len() implies name_len(
                        rest[i],
                    ) <= name_len(rest[j]) by {
                        assert(rest[i] == ds[i] && rest[j] == ds[j]);
                    }
                }
            }
            match last_match(rest, path) {
                None => {
                    assert forall|k: int| 0 <= k < ds.len() implies !directive_matches(
                        #[trigger] ds[k],
                        path,
                    ) by {
                        if k < n {
                            assert(rest[k] == ds[k]);
                        }
                    }
                },
                Some(j) => {
                    assert(rest[j] == ds[j]);
                    assert forall|k: int| j < k < ds.len() implies !directive_matches(
                        #[trigger] ds[k],
                        path,
                    ) by {
                        if k < n {
                            assert(rest[k] == ds[k]);
                        }
                    }
                    if sorted_by_len(ds) {
                        assert forall|k: int|
                            0 <= k < ds.len() && directive_matches(
                                #[trigger] ds[k],
                                path,
                            ) implies name_len(ds[k]) <= name_len(ds[j]) by {
                            if k < n {
                                assert(rest[k] == ds[k]);
                            }
                        }
                    }
                },
            }
        }
    }
}

/// A directive that does not apply to a module path changes no decision for
/// that path, wherever it stands in the list.
pub proof fn lemma_unmatched_directive_irrelevant(
    ds: Seq<DirectiveView>,
    k: int,
    d: DirectiveView,
    path: Seq<char>,
    level: Level,
)
    requires
        0 <= k <= ds.len(),
        !directive_matches(d, path),
    ensures
        decide(ds.insert(k, d), path, level) == decide(ds, path, level),
    decreases ds.len(),
{
    let e = ds.insert(k, d);
    if k == ds.len() {
        assert(e.drop_last() =~= ds);
    } else {
        assert(e.last() == ds.last());
        assert(e.drop_last() =~= ds.drop_last().insert(k, d));
        if !directive_matches(ds.last(), path) {
            lemma_unmatched_directive_irrelevant(ds.drop_last(), k, d, path, level);
        }
    }
}

/// Adding to a builder that already holds directives one that does not
/// apply to a module path leaves the built filter's decision for that path
/// unchanged. (With no directive before it, the added one would replace the
/// default `Error` directive.)
pub proof fn lemma_build_ignores_unmatched(
    ds: Seq<DirectiveView>,
    d: DirectiveView,
    path: Seq<char>,
    level: Level,
)
    requires
        ds.len() > 0,
        !directive_matches(d, path),
    ensures
        decide(built(ds.push(d)), path, level) == decide(built(ds), path, level),
{
    lemma_sort_by_len_sorted(ds);
    lemma_insert_sorted_sorted(sort_by_len(ds), d);
    assert(ds.push(d).drop_last() =~= ds);
    let p = choose|p: int|
        0 <= p <= sort_by_len(ds).len() && insert_sorted(sort_by_len(ds), d) == sort_by_len(
            ds,
        ).insert(p, d);
    lemma_unmatched_directive_irrelevant(sort_by_len(ds), p, d, path, level);
}

/// A filter built from no directives enables exactly the events at `Crash`
/// or `Error` severity, whatever their module.
pub proof fn lemma_default_filter(path: Seq<char>, level: Level)
    ensures
        decide(built(Seq::<DirectiveView>::empty()), path, level) <==> (level == Level::Crash
            || level == Level::Error),
{
    let ds = built(Seq::<DirectiveView>::empty());
    assert(ds.last() == default_directive());
}

/// Collects directives and compiles them into a `StandardFilter`.
#[derive(Debug)]
pub struct StandardFilterBuilder {
    directives: Vec<Directive>,
}

impl View for StandardFilterBuilder {
    type V = Seq<DirectiveView>;

    closed spec fn view(&self) -> Seq<DirectiveView> {
        directive_views(self.directives@)
    }
}

impl Default for StandardFilterBuilder {
    fn default() -> (r: StandardFilterBuilder)
        ensures
            r@ == Seq::<DirectiveView>::empty(),
    {
        StandardFilterBuilder::new()
    }
}

impl StandardFilterBuilder {
    pub fn new() -> (r: StandardFilterBuilder)
        ensures
            r@ == Seq::<DirectiveView>::empty(),
    {
        let r = StandardFilterBuilder { directives: Vec::new() };
        assert(r@ =~= Seq::<DirectiveView>::empty());
        r
    }

    /// Adds a directive for a module prefix.
    pub fn filter_module(&mut self, module: &str, level: LevelFilter) -> (r: &mut Self)
        ensures
            (*r)@ == old(self)@.push(DirectiveView { name: Some(module@), level }),
            *final(self) == *final(r),
    {
        self.filter(Some(module), level)
    }

    /// Adds a global directive.
    pub fn filter_level(&mut self, level: LevelFilter) -> (r: &mut Self)
        ensures
            (*r)@ == old(self)@.push(DirectiveView { name: None, level }),
            *final(self) == *final(r),
    {
        self.filter(None, level)
    }

    /// Adds a directive.
    pub fn filter(&mut self, module: Option<&str>, level: LevelFilter) -> (r: &mut Self)
        ensures
            (*r)@ == old(self)@.push(
                DirectiveView {
                    name: match module {
                        Some(n) => Some(n@),
                        None => None::<Seq<char>>,
                    },
                    level,
                },
            ),
            *final(self) == *final(r),
    {
        let d = Directive::new(module, level);
        self.push_directive(d);
        self
    }

    fn push_directive(&mut self, d: Directive)
        ensures
            final(self)@ == old(self)@.push(d@),
    {
        self.directives.push(d);
        assert(self@ =~= old(self)@.push(d@));
    }

    /// Adds the directives of a comma-separated list; malformed ones are
    /// left out.
    pub fn parse(&mut self, filters: &str) -> (r: &mut Self)
        ensures
            (*r)@ == old(self)@ + parsed_directives(split_seq(filters@, ',')),
            *final(self) == *final(r),
    {
        let pieces = split(filters, ',');
        let ghost pv = split_seq(filters@, ',');
        let ghost start = self@;
        let mut i: usize = 0;
        assert(pv.subrange(0, 0) =~= Seq::<Seq<char>>::empty());
        assert(start + parsed_directives(Seq::<Seq<char>>::empty()) =~= start);
        while i < pieces.len()
            invariant
                seq_views(pieces@) == pv,
                i <= pieces.len(),
                self@ == start + parsed_directives(pv.subrange(0, i as int)),
            decreases pieces.len() - i,
        {
            let piece = pieces[i];
            assert(pv.subrange(0, i + 1).drop_last() =~= pv.subrange(0, i as int));
            assert(pv.subrange(0, i + 1).last() == piece@);
            match Directive::parse(piece) {
                Ok(d) => {
                    self.push_directive(d);
                    assert(start + parsed_directives(pv.subrange(0, i as int)).push(d@) =~= (start
                        + parsed_directives(pv.subrange(0, i as int))).push(d@));
                },
                Err(_) => {},
            }
            i = i + 1;
        }
        assert(pv.subrange(0, i as int) =~= pv);
        self
    }

    /// Compiles the collected directives, leaving the builder empty. With no
    /// directives the filter holds one global directive at `Error`.
    pub fn build(&mut self) -> (r: StandardFilter)
        ensures
            r@ == built(old(self)@),
            r.wf(),
            final(self)@ == Seq::<DirectiveView>::empty(),
    {
        let mut src: Vec<Directive> = Vec::new();
        core::mem::swap(&mut src, &mut self.directives);
        assert(self@ =~= Seq::<DirectiveView>::empty());
        let ghost orig = directive_views(src@);
        let mut out: Vec<Directive> = Vec::new();
        if src.len() == 0 {
            out.push(Directive::new(None, LevelFilter::Error));
            let r = StandardFilter { directives: out };
            assert(r@ =~= seq![default_directive()]);
            return r;
        }
        let n = src.len();
        let mut k: usize = 0;
        assert(directive_views(out@) =~= sort_by_len(orig.subrange(0, 0)));
        while k < n
            invariant
                n == orig.len(),
                k <= n,
                src.len() == n - k,
                directive_views(src@) == orig.subrange(k as int, n as int),
                directive_views(out@) == sort_by_len(orig.subrange(0, k as int)),
            decreases n - k,
        {
            let ghost ov = directive_views(out@);
            assert(directive_views(src@)[0] == orig[k as int]);
            let ghost before = src@;
            let d = src.remove(0);
            assert forall|j: int| 0 <= j < src@.len() implies directive_views(src@)[j] == orig[k + 1
                + j] by {
                assert(src@[j] == before[j + 1]);
                assert(directive_views(before)[j + 1] == orig[k + 1 + j]);
            }
            assert(directive_views(src@) =~= orig.subrange(k + 1, n as int));
            let dl = d.name_len();
            let mut p = out.len();
            while p > 0 && out[p - 1].name_len() > dl
                invariant
                    p <= out.len(),
                    dl == name_len(d@),
                    ov == directive_views(out@),
                    forall|j: int| p <= j < ov.len() ==> name_len(#[trigger] ov[j]) > name_len(d@),
                decreases p,
            {
                assert(ov[p as int - 1] == out@[p as int - 1]@);
                p = p - 1;
            }
            proof {
                lemma_insert_sorted_at(ov, d@, p as int);
                let pre = orig.subrange(0, k + 1);
                assert(pre.drop_last() =~= orig.subrange(0, k as int));
                assert(pre.last() == d@);
            }
            let ghost dv = d@;
            out.insert(p, d);
            assert(directive_views(out@) =~= ov.insert(p as int, dv));
            k = k + 1;
        }
        proof {
            assert(orig.subrange(0, n as int) =~= orig);
            lemma_sort_by_len_sorted(orig);
        }
        StandardFilter { directives: out }
    }
}

} // verus!
