//! The list parser: turns the line-oriented source list into work units.
//! A unit accumulates source lines until a delimiter line (or the end of
//! input) finalizes it; comments, blank lines and unrecognized lines are
//! skipped. An empty accumulation is never emitted.

use vstd::prelude::*;

use crate::clock::{now_timestamp, timestamp_shaped};
use crate::source::{classify_source_line, source_of_line, SourceDescriptor, SourceView};
use crate::text::{has_prefix, starts_with, suffix_from, trim, trim_spec};

verus! {

/// Spec-level form of a work unit.
pub struct UnitView {
    pub name: Seq<char>,
    pub sources: Seq<SourceView>,
}

/// One logical novel: an ordered group of sources sharing one output.
pub struct WorkUnit {
    pub name: String,
    pub sources: Vec<SourceDescriptor>,
}

impl View for WorkUnit {
    type V = UnitView;

    open spec fn view(&self) -> UnitView {
        UnitView {
            name: self.name@,
            sources: self.sources@.map_values(|d: SourceDescriptor| d@),
        }
    }
}

/// A trimmed line the parser skips: blank, or a comment.
pub open spec fn is_skip_line(t: Seq<char>) -> bool {
    t.len() == 0 || has_prefix(t, "//"@)
}

/// A trimmed line that delimits units.
pub open spec fn is_delim_line(t: Seq<char>) -> bool {
    has_prefix(t, "---"@)
}

/// The rename a delimiter line carries: its text after the marker,
/// trimmed; empty when the delimiter gives no new name.
pub open spec fn delim_rename(t: Seq<char>) -> Seq<char> {
    trim_spec(t.skip(3))
}

/// Scan `lines` from index `i` with the sources accumulated so far,
/// yielding the next finalized unit (if any) and the index scanning
/// stopped at. A delimiter finalizes a non-empty accumulation, naming
/// the unit after its rename text when that is non-empty and
/// `default_name` otherwise; at the end of input a non-empty
/// accumulation is emitted under `default_name`.
pub open spec fn scan_unit(
    lines: Seq<Seq<char>>,
    i: int,
    acc: Seq<SourceView>,
    default_name: Seq<char>,
) -> (Option<UnitView>, int)
    decreases lines.len() - i,
{
    if i < 0 || i >= lines.len() {
        (
            if acc.len() > 0 {
                Some(UnitView { name: default_name, sources: acc })
            } else {
                None
            },
            lines.len() as int,
        )
    } else {
        let t = trim_spec(lines[i]);
        if is_skip_line(t) {
            scan_unit(lines, i + 1, acc, default_name)
        } else if is_delim_line(t) {
            if acc.len() > 0 {
                let rename = delim_rename(t);
                let name = if rename.len() > 0 {
                    rename
                } else {
                    default_name
                };
                (Some(UnitView { name, sources: acc }), i + 1)
            } else {
                scan_unit(lines, i + 1, acc, default_name)
            }
        } else {
            match source_of_line(t) {
                Some(d) => scan_unit(lines, i + 1, acc.push(d), default_name),
                None => scan_unit(lines, i + 1, acc, default_name),
            }
        }
    }
}

/// The views of a vector of lines.
pub open spec fn line_views(lines: Seq<String>) -> Seq<Seq<char>> {
    lines.map_values(|l: String| l@)
}

/// Scan `lines` from `start` for the next work unit, naming it
/// `default_name` when no delimiter renames it; returns the unit (none
/// when only an empty accumulation remains) and the index to resume at.
pub fn next_unit_from(lines: &Vec<String>, start: usize, default_name: &str) -> (r: (
    Option<WorkUnit>,
    usize,
))
    requires
        start <= lines@.len(),
    ensures
        start <= r.1 <= lines@.len(),
        ({
            let (u, next) = scan_unit(
                line_views(lines@),
                start as int,
                Seq::empty(),
                default_name@,
            );
            &&& r.1 as int == next
            &&& match (r.0, u) {
                (Some(wu), Some(uv)) => wu@ == uv,
                (None, None) => true,
                _ => false,
            }
        }),
{
    let ghost lv = line_views(lines@);
    let ghost d = default_name@;
    let n = lines.len();
    let mut i = start;
    let mut acc: Vec<SourceDescriptor> = Vec::new();
    proof {
        assert(acc@.map_values(|x: SourceDescriptor| x@) =~= Seq::<SourceView>::empty());
    }
    while i < n
        invariant
            start <= i <= n,
            n == lines@.len(),
            lv == line_views(lines@),
            d == default_name@,
            scan_unit(lv, start as int, Seq::empty(), d) == scan_unit(
                lv,
                i as int,
                acc@.map_values(|x: SourceDescriptor| x@),
                d,
            ),
        decreases n - i,
    {
        let ghost accv = acc@.map_values(|x: SourceDescriptor| x@);
        proof {
            assert(lv[i as int] == lines@[i as int]@);
        }
        let t = trim(lines[i].as_str());
        let blank = t.unicode_len() == 0;
        if blank || starts_with(t.as_str(), "//") {
            i = i + 1;
        } else if starts_with(t.as_str(), "---") {
            if acc.len() > 0 {
                proof {
                    reveal_strlit("---");
                }
                let rename = trim(suffix_from(t.as_str(), 3).as_str());
                let name = if rename.unicode_len() > 0 {
                    rename
                } else {
                    default_name.to_owned()
                };
                let wu = WorkUnit { name, sources: acc };
                proof {
                    assert(delim_rename(trim_spec(lv[i as int])) == trim_spec(
                        t@.skip(3),
                    ));
                }
                return (Some(wu), i + 1);
            } else {
                i = i + 1;
            }
        } else {
            match classify_source_line(t.as_str()) {
                Some(dsc) => {
                    let ghost dv = dsc@;
                    acc.push(dsc);
                    proof {
                        assert(acc@.map_values(|x: SourceDescriptor| x@) =~= accv.push(
                            dv,
                        ));
                    }
                    i = i + 1;
                },
                None => {
                    i = i + 1;
                },
            }
        }
    }
    if acc.len() > 0 {
        let wu = WorkUnit { name: default_name.to_owned(), sources: acc };
        (Some(wu), n)
    } else {
        (None, n)
    }
}

/// Law: a unit definition with no source lines between delimiters is
/// never emitted — every unit the scan yields has at least one source.
pub proof fn lemma_no_empty_unit(
    lines: Seq<Seq<char>>,
    i: int,
    acc: Seq<SourceView>,
    default_name: Seq<char>,
)
    requires
        0 <= i,
    ensures
        scan_unit(lines, i, acc, default_name).0 matches Some(u) ==> u.sources.len() > 0,
    decreases lines.len() - i,
{
    if i >= lines.len() {
    } else {
        let t = trim_spec(lines[i]);
        if is_skip_line(t) {
            lemma_no_empty_unit(lines, i + 1, acc, default_name);
        } else if is_delim_line(t) {
            if acc.len() > 0 {
            } else {
                lemma_no_empty_unit(lines, i + 1, acc, default_name);
            }
        } else {
            match source_of_line(t) {
                Some(d) => lemma_no_empty_unit(lines, i + 1, acc.push(d), default_name),
                None => lemma_no_empty_unit(lines, i + 1, acc, default_name),
            }
        }
    }
}

/// The sources the scan collects from the lines in `[i, e)`: each
/// source line's descriptor, in original order, skipping everything
/// else.
pub open spec fn collected(lines: Seq<Seq<char>>, i: int, e: int) -> Seq<SourceView>
    decreases e - i,
{
    if i < 0 || i >= e || e > lines.len() {
        Seq::empty()
    } else {
        let t = trim_spec(lines[i]);
        let rest = collected(lines, i + 1, e);
        if is_skip_line(t) || is_delim_line(t) {
            rest
        } else {
            match source_of_line(t) {
                Some(d) => seq![d] + rest,
                None => rest,
            }
        }
    }
}

/// Law (one group): scanning a stretch of non-delimiter lines that a
/// delimiter at `e` terminates emits exactly one unit, holding the
/// sources of the stretch in their original order after those already
/// accumulated; an explicit rename on the delimiter names the unit, an
/// empty rename leaves the default name standing. Scanning resumes just
/// past the delimiter.
pub proof fn lemma_scan_group(
    lines: Seq<Seq<char>>,
    i: int,
    e: int,
    acc: Seq<SourceView>,
    default_name: Seq<char>,
)
    requires
        0 <= i <= e < lines.len(),
        forall|k: int| i <= k < e ==> !is_delim_line(#[trigger] trim_spec(lines[k])),
        is_delim_line(trim_spec(lines[e])),
        !is_skip_line(trim_spec(lines[e])),
        acc.len() + collected(lines, i, e).len() > 0,
    ensures
        scan_unit(lines, i, acc, default_name) == (
            Some(
                UnitView {
                    name: {
                        let rn = delim_rename(trim_spec(lines[e]));
                        if rn.len() > 0 {
                            rn
                        } else {
                            default_name
                        }
                    },
                    sources: acc + collected(lines, i, e),
                },
            ),
            e + 1,
        ),
    decreases e - i,
{
    if i == e {
        assert(collected(lines, i, e) =~= Seq::<SourceView>::empty());
        assert(acc + collected(lines, i, e) =~= acc);
    } else {
        let t = trim_spec(lines[i]);
        assert(!is_delim_line(t));
        if is_skip_line(t) {
            lemma_scan_group(lines, i + 1, e, acc, default_name);
        } else {
            match source_of_line(t) {
                Some(d) => {
                    lemma_scan_group(lines, i + 1, e, acc.push(d), default_name);
                    assert(acc.push(d) + collected(lines, i + 1, e) =~= acc + (seq![d]
                        + collected(lines, i + 1, e)));
                },
                None => {
                    lemma_scan_group(lines, i + 1, e, acc, default_name);
                },
            }
        }
    }
}

/// The units repeated scanning yields from index `i` on, the `j`-th
/// scan using the `j`-th default name; at most one unit per default
/// name supplied.
pub open spec fn units_from(lines: Seq<Seq<char>>, i: int, defaults: Seq<Seq<char>>) -> Seq<
    UnitView,
>
    decreases defaults.len(),
{
    if defaults.len() == 0 {
        Seq::empty()
    } else {
        let (u, next) = scan_unit(lines, i, Seq::empty(), defaults[0]);
        match u {
            Some(un) => seq![un] + units_from(lines, next, defaults.skip(1)),
            None => Seq::empty(),
        }
    }
}

/// Where the `j`-th group starts: at `i` for the first, just past the
/// previous group's delimiter otherwise.
pub open spec fn group_start(i: int, ds: Seq<int>, j: int) -> int {
    if j == 0 {
        i
    } else {
        ds[j - 1] + 1
    }
}

/// Law (whole list): a list made of delimiter-terminated non-empty
/// groups — `ds` holds the delimiter positions, the last one ending the
/// list — parses to exactly one unit per group, each holding exactly the
/// sources appearing between its start and its terminating delimiter, in
/// their original order, and named by its delimiter's rename when that
/// is non-empty and by its default name otherwise.
pub proof fn lemma_list_parses_groups(
    lines: Seq<Seq<char>>,
    i: int,
    ds: Seq<int>,
    defaults: Seq<Seq<char>>,
)
    requires
        ds.len() > 0,
        defaults.len() == ds.len(),
        0 <= i,
        forall|j: int| 0 <= j < ds.len() ==> i <= #[trigger] ds[j] < lines.len(),
        forall|j: int| 0 < j < ds.len() ==> ds[j - 1] < #[trigger] ds[j],
        lines.len() == ds[ds.len() - 1] + 1,
        forall|j: int| 0 <= j < ds.len() ==> is_delim_line(trim_spec(lines[#[trigger] ds[j]])),
        forall|j: int| 0 <= j < ds.len() ==> !is_skip_line(trim_spec(lines[#[trigger] ds[j]])),
        forall|j: int|
            0 <= j < ds.len() ==> (forall|k: int|
                group_start(i, ds, j) <= k < #[trigger] ds[j] ==> !is_delim_line(
                    #[trigger] trim_spec(lines[k]),
                )),
        forall|j: int|
            0 <= j < ds.len() ==> collected(lines, group_start(i, ds, j), #[trigger] ds[j]).len()
                > 0,
    ensures
        ({
            let us = units_from(lines, i, defaults);
            &&& us.len() == ds.len()
            &&& forall|j: int|
                0 <= j < ds.len() ==> #[trigger] us[j].sources == collected(
                    lines,
                    group_start(i, ds, j),
                    ds[j],
                )
            &&& forall|j: int|
                0 <= j < ds.len() ==> #[trigger] us[j].name == ({
                    let rn = delim_rename(trim_spec(lines[ds[j]]));
                    if rn.len() > 0 {
                        rn
                    } else {
                        defaults[j]
                    }
                })
        }),
    decreases ds.len(),
{
    assert(Seq::<SourceView>::empty() + collected(lines, i, ds[0]) =~= collected(
        lines,
        i,
        ds[0],
    ));
    lemma_scan_group(lines, i, ds[0], Seq::empty(), defaults[0]);
    let (u, next) = scan_unit(lines, i, Seq::empty(), defaults[0]);
    let un = u->0;
    let us = units_from(lines, i, defaults);
    if ds.len() == 1 {
        assert(next == lines.len());
        assert(defaults.skip(1).len() == 0);
        assert(units_from(lines, next, defaults.skip(1)) == Seq::<UnitView>::empty());
        assert(u == Some(un));
        assert(us == seq![un] + units_from(lines, next, defaults.skip(1)));
        assert(us =~= seq![un]);
    } else {
        let i1 = ds[0] + 1;
        let ds1 = ds.skip(1);
        let defaults1 = defaults.skip(1);
        assert(forall|j: int| 0 <= j < ds1.len() ==> #[trigger] ds1[j] == ds[j + 1]);
        assert(forall|j: int| 0 <= j < defaults1.len() ==> #[trigger] defaults1[j] == defaults[
            j + 1
        ]);
        assert(ds1[ds1.len() - 1] == ds[ds.len() - 1]);
        assert(forall|j: int|
            0 <= j < ds1.len() ==> group_start(i1, ds1, j) == group_start(i, ds, j + 1));
        lemma_list_parses_groups(lines, i1, ds1, defaults1);
        let us1 = units_from(lines, i1, defaults1);
        assert(us =~= seq![un] + us1);
        assert(forall|j: int| 0 < j < ds.len() ==> #[trigger] us[j] == us1[j - 1]);
        assert(us[0] == un);
    }
}

/// Streams work units out of the lines of a source list, in order,
/// consuming each line once.
pub struct ListParser {
    pub lines: Vec<String>,
    pub pos: usize,
}

impl ListParser {
    /// The position never runs past the input.
    pub open spec fn wf(&self) -> bool {
        self.pos <= self.lines@.len()
    }

    /// A parser at the start of the given lines.
    pub fn new(lines: Vec<String>) -> (r: Self)
        ensures
            r.wf(),
            r.lines@ == lines@,
            r.pos == 0,
    {
        ListParser { lines, pos: 0 }
    }

    /// Produce the next work unit, named `default_name` unless its
    /// delimiter renames it; `None` once no sources remain.
    pub fn next_novel_with(&mut self, default_name: &str) -> (r: Option<WorkUnit>)
        requires
            old(self).wf(),
        ensures
            final(self).wf(),
            final(self).lines@ == old(self).lines@,
            ({
                let (u, next) = scan_unit(
                    line_views(old(self).lines@),
                    old(self).pos as int,
                    Seq::empty(),
                    default_name@,
                );
                &&& final(self).pos as int == next
                &&& match (r, u) {
                    (Some(wu), Some(uv)) => wu@ == uv,
                    (None, None) => true,
                    _ => false,
                }
            }),
    {
        let (u, next) = next_unit_from(&self.lines, self.pos, default_name);
        self.pos = next;
        u
    }

    /// Produce the next work unit, named by a fresh fetch-time timestamp
    /// unless its delimiter renames it.
    pub fn next_novel(&mut self) -> (r: Option<WorkUnit>)
        requires
            old(self).wf(),
        ensures
            final(self).wf(),
            final(self).lines@ == old(self).lines@,
            exists|d: Seq<char>|
                {
                    let (u, next) = scan_unit(
                        line_views(old(self).lines@),
                        old(self).pos as int,
                        Seq::empty(),
                        d,
                    );
                    &&& #[trigger] timestamp_shaped(d)
                    &&& final(self).pos as int == next
                    &&& match (r, u) {
                        (Some(wu), Some(uv)) => wu@ == uv,
                        (None, None) => true,
                        _ => false,
                    }
                },
    {
        let stamp = now_timestamp();
        let r = self.next_novel_with(stamp.as_str());
        proof {
            let d = stamp@;
            assert(timestamp_shaped(d));
        }
        r
    }
}

} // verus!
