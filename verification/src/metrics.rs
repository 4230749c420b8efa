//! The in-memory metrics registry: named, labeled gauges for
//! repository statistics and rate-limit state, with rendering into
//! the plaintext exposition format.

use vstd::prelude::*;
use vstd::string::{StrSliceExecFns, StringExecFns};
use crate::num::{dec_digits, u64_to_dec};

verus! {

/// One observation of a tracked repository. Replaced wholesale on
/// each successful poll; never partially updated.
pub struct RepoStat {
    /// The `owner/name` identifier.
    pub repo: String,
    /// Star count.
    pub stars: u64,
    /// Fork count.
    pub forks: u64,
    /// Open-issue count.
    pub open_issues: u64,
    /// Watcher count.
    pub watchers: u64,
    /// When the observation was made, in seconds.
    pub observed_at: u64,
}

/// The remaining request quota and when it resets.
#[derive(Clone, Copy, Debug, PartialEq, Eq, Structural)]
pub struct RateLimitStatus {
    /// Requests left in the current window.
    pub remaining: u64,
    /// Absolute time, in seconds, at which the window resets.
    pub reset: u64,
}

/// Clamps a raw gauge reading to zero at minimum, so malformed
/// negative counts are never exposed.
pub fn clamp_gauge(v: i64) -> (res: u64)
    ensures
        v >= 0 ==> res == v,
        v < 0 ==> res == 0,
{
    if v < 0 {
        0
    } else {
        v as u64
    }
}

impl RepoStat {
    /// Builds an observation from raw counts, clamping each count to
    /// zero at minimum.
    pub fn from_raw(
        repo: String,
        stars: i64,
        forks: i64,
        open_issues: i64,
        watchers: i64,
        observed_at: u64,
    ) -> (res: RepoStat)
        ensures
            res.repo == repo,
            res.stars == if stars >= 0 { stars as u64 } else { 0u64 },
            res.forks == if forks >= 0 { forks as u64 } else { 0u64 },
            res.open_issues == if open_issues >= 0 { open_issues as u64 } else { 0u64 },
            res.watchers == if watchers >= 0 { watchers as u64 } else { 0u64 },
            res.observed_at == observed_at,
    {
        RepoStat {
            repo,
            stars: clamp_gauge(stars),
            forks: clamp_gauge(forks),
            open_issues: clamp_gauge(open_issues),
            watchers: clamp_gauge(watchers),
            observed_at,
        }
    }
}

/// Which of the four per-repository gauges a sample belongs to.
#[derive(Clone, Copy)]
pub enum GaugeField {
    /// Star count.
    Stars,
    /// Fork count.
    Forks,
    /// Open-issue count.
    OpenIssues,
    /// Watcher count.
    Watchers,
}

/// The gauge value a field selects from an observation.
pub open spec fn field_of(r: RepoStat, f: GaugeField) -> u64 {
    match f {
        GaugeField::Stars => r.stars,
        GaugeField::Forks => r.forks,
        GaugeField::OpenIssues => r.open_issues,
        GaugeField::Watchers => r.watchers,
    }
}

/// Whether a label-value character must be escaped in the
/// exposition format.
pub open spec fn needs_escape(c: char) -> bool {
    c == '\\' || c == '"' || c == '\n'
}

/// The escaped form of one label-value character: backslash and
/// double quote get a backslash, a newline becomes `\n`.
pub open spec fn escape_label_char(c: char) -> Seq<char> {
    if c == '\\' {
        seq!['\\', '\\']
    } else if c == '"' {
        seq!['\\', '"']
    } else if c == '\n' {
        seq!['\\', 'n']
    } else {
        seq![c]
    }
}

/// A label value with backslash, double quote, and newline escaped,
/// as the exposition format requires of quoted label values.
pub open spec fn escape_label(s: Seq<char>) -> Seq<char>
    decreases s.len(),
{
    if s.len() == 0 {
        Seq::<char>::empty()
    } else {
        escape_label(s.drop_last()) + escape_label_char(s.last())
    }
}

/// One labeled sample line: `name{repo="<id>"} <value>` and a
/// newline, with the identifier escaped.
pub open spec fn sample_line(name: Seq<char>, repo: Seq<char>, value: u64) -> Seq<char> {
    name + "{repo=\""@ + escape_label(repo) + "\"} "@ + dec_digits(value as nat) + "\n"@
}

/// One unlabeled sample line: `name <value>` and a newline.
pub open spec fn plain_line(name: Seq<char>, value: u64) -> Seq<char> {
    name + " "@ + dec_digits(value as nat) + "\n"@
}

/// The help and type lines of one metric family.
pub open spec fn family_header(name: Seq<char>, help: Seq<char>) -> Seq<char> {
    "# HELP "@ + name + " "@ + help + "\n"@ + "# TYPE "@ + name + " gauge\n"@
}

/// One sample line per registered repository, in registration order.
pub open spec fn repo_samples(name: Seq<char>, rows: Seq<RepoStat>, f: GaugeField) -> Seq<char>
    decreases rows.len(),
{
    if rows.len() == 0 {
        Seq::<char>::empty()
    } else {
        repo_samples(name, rows.drop_last(), f) + sample_line(
            name,
            rows.last().repo@,
            field_of(rows.last(), f),
        )
    }
}

/// A per-repository metric family: header lines, then exactly one
/// sample per registered repository.
pub open spec fn repo_family(
    name: Seq<char>,
    help: Seq<char>,
    rows: Seq<RepoStat>,
    f: GaugeField,
) -> Seq<char> {
    family_header(name, help) + repo_samples(name, rows, f)
}

/// An unlabeled metric family: header lines, then one sample if a
/// value is known and none otherwise.
pub open spec fn plain_family(name: Seq<char>, help: Seq<char>, value: Option<u64>) -> Seq<char> {
    family_header(name, help) + match value {
        Some(v) => plain_line(name, v),
        None => Seq::<char>::empty(),
    }
}

/// The full exposition text for a registry state: the four
/// per-repository families, then the two rate-limit families. Header
/// lines are always present; sample lines exist only for data that
/// has actually been written.
pub open spec fn render_spec(rows: Seq<RepoStat>, rl: Option<RateLimitStatus>) -> Seq<char> {
    repo_family(
        "github_repo_stars"@,
        "Number of stars for a repo"@,
        rows,
        GaugeField::Stars,
    ) + repo_family(
        "github_repo_forks"@,
        "Number of forks for a repo"@,
        rows,
        GaugeField::Forks,
    ) + repo_family(
        "github_repo_open_issues"@,
        "Number of open issues for a repo"@,
        rows,
        GaugeField::OpenIssues,
    ) + repo_family(
        "github_repo_watchers"@,
        "Number of watchers for a repo"@,
        rows,
        GaugeField::Watchers,
    ) + plain_family(
        "github_rate_limit_remaining"@,
        "Remaining API requests for the current rate limit window"@,
        match rl {
            Some(x) => Some(x.remaining),
            None => None,
        },
    ) + plain_family(
        "github_rate_limit_reset"@,
        "Unix timestamp when the GitHub API rate limit resets"@,
        match rl {
            Some(x) => Some(x.reset),
            None => None,
        },
    )
}

/// Whether some registered row carries the given repository name.
pub open spec fn has_repo(rows: Seq<RepoStat>, name: Seq<char>) -> bool {
    exists|i: int| 0 <= i < rows.len() && rows[i].repo@ == name
}

/// The index of the row carrying the given name; meaningful only
/// when `has_repo` holds and names are unique.
pub open spec fn repo_index(rows: Seq<RepoStat>, name: Seq<char>) -> int {
    choose|i: int| 0 <= i < rows.len() && rows[i].repo@ == name
}

/// What one write does to the rows: the row with the same name is
/// replaced in place, or a new row is appended.
pub open spec fn apply_stat(rows: Seq<RepoStat>, stat: RepoStat) -> Seq<RepoStat> {
    if has_repo(rows, stat.repo@) {
        rows.update(repo_index(rows, stat.repo@), stat)
    } else {
        rows.push(stat)
    }
}

/// What a sequence of writes does to the rows, applied in order.
pub open spec fn apply_all(rows: Seq<RepoStat>, stats: Seq<RepoStat>) -> Seq<RepoStat>
    decreases stats.len(),
{
    if stats.len() == 0 {
        rows
    } else {
        apply_all(apply_stat(rows, stats.first()), stats.drop_first())
    }
}

/// No name appears twice.
pub open spec fn distinct_names(rows: Seq<RepoStat>) -> bool {
    forall|i: int, j: int|
        0 <= i < j < rows.len() ==> (#[trigger] rows[i]).repo@ != (#[trigger] rows[j]).repo@
}

/// No name of `stats` occurs among `rows`.
pub open spec fn names_disjoint(rows: Seq<RepoStat>, stats: Seq<RepoStat>) -> bool {
    forall|i: int, j: int|
        0 <= i < rows.len() && 0 <= j < stats.len() ==> (#[trigger] rows[i]).repo@ != (
        #[trigger] stats[j]).repo@
}

/// Law: a full successful poll cycle over distinct repositories
/// writes exactly one row per repository, in order, holding the
/// fetched values — so the rendered text then carries exactly one
/// sample per repository per family, each matching its last
/// successful fetch.
pub proof fn lemma_cycle_registers_each_once(rows: Seq<RepoStat>, stats: Seq<RepoStat>)
    requires
        distinct_names(stats),
        names_disjoint(rows, stats),
    ensures
        apply_all(rows, stats) == rows + stats,
    decreases stats.len(),
{
    if stats.len() == 0 {
        assert(apply_all(rows, stats) =~= rows + stats);
    } else {
        let s0 = stats.first();
        let rest = stats.drop_first();
        assert(!has_repo(rows, s0.repo@)) by {
            if has_repo(rows, s0.repo@) {
                let i = choose|i: int| 0 <= i < rows.len() && rows[i].repo@ == s0.repo@;
            }
        }
        assert(apply_stat(rows, s0) == rows.push(s0));
        assert(distinct_names(rest)) by {
            assert(forall|i: int| 0 <= i < rest.len() ==> rest[i] == stats[i + 1]);
        }
        assert(names_disjoint(rows.push(s0), rest)) by {
            assert(forall|i: int| 0 <= i < rest.len() ==> rest[i] == stats[i + 1]);
            assert(forall|i: int| 0 <= i < rows.len() ==> rows.push(s0)[i] == rows[i]);
            assert(rows.push(s0)[rows.len() as int] == s0);
        }
        lemma_cycle_registers_each_once(rows.push(s0), rest);
        assert(rows.push(s0) + rest =~= rows + stats);
    }
}

/// What one write does, in detail: names stay unique, rows with
/// other names keep their values and positions, a row holding the
/// written observation exists, and no name appears that was neither
/// present nor written.
proof fn lemma_apply_stat_effects(rows: Seq<RepoStat>, stat: RepoStat)
    requires
        distinct_names(rows),
    ensures
        distinct_names(apply_stat(rows, stat)),
        apply_stat(rows, stat).len() >= rows.len(),
        forall|i: int|
            0 <= i < rows.len() && (#[trigger] rows[i]).repo@ != stat.repo@ ==> apply_stat(
                rows,
                stat,
            )[i] == rows[i],
        exists|k: int|
            0 <= k < apply_stat(rows, stat).len() && apply_stat(rows, stat)[k] == stat,
        forall|j: int|
            0 <= j < apply_stat(rows, stat).len() ==> (#[trigger] apply_stat(rows, stat)[j]).repo@
                == stat.repo@ || has_repo(rows, apply_stat(rows, stat)[j].repo@),
{
    let post = apply_stat(rows, stat);
    if has_repo(rows, stat.repo@) {
        let idx = repo_index(rows, stat.repo@);
        assert(0 <= idx < rows.len() && rows[idx].repo@ == stat.repo@);
        assert(post == rows.update(idx, stat));
        assert forall|a: int, b: int| 0 <= a < b < post.len() implies (#[trigger] post[a]).repo@
            != (#[trigger] post[b]).repo@ by {
            assert(post[a].repo@ == rows[a].repo@);
            assert(post[b].repo@ == rows[b].repo@);
        }
        assert(post[idx] == stat);
        assert forall|j: int| 0 <= j < post.len() implies (#[trigger] post[j]).repo@ == stat.repo@
            || has_repo(rows, post[j].repo@) by {
            if j != idx {
                assert(post[j] == rows[j]);
                assert(has_repo(rows, post[j].repo@)) by {
                    assert(rows[j].repo@ == post[j].repo@);
                }
            }
        }
    } else {
        assert forall|k: int| 0 <= k < rows.len() implies (#[trigger] rows[k]).repo@
            != stat.repo@ by {
            if rows[k].repo@ == stat.repo@ {
                assert(has_repo(rows, stat.repo@));
            }
        }
        assert(post == rows.push(stat));
        assert forall|a: int, b: int| 0 <= a < b < post.len() implies (#[trigger] post[a]).repo@
            != (#[trigger] post[b]).repo@ by {
            if b < post.len() - 1 {
                assert(post[a] == rows[a] && post[b] == rows[b]);
            } else {
                assert(post[a] == rows[a] && post[b] == stat);
            }
        }
        assert(post[post.len() - 1] == stat);
        assert forall|j: int| 0 <= j < post.len() implies (#[trigger] post[j]).repo@ == stat.repo@
            || has_repo(rows, post[j].repo@) by {
            if j < post.len() - 1 {
                assert(post[j] == rows[j]);
                assert(has_repo(rows, post[j].repo@)) by {
                    assert(rows[j].repo@ == post[j].repo@);
                }
            }
        }
    }
}

/// Law (general overwrite form): a successful poll cycle over
/// distinct repositories, applied to any well-formed registry,
/// keeps names unique; keeps every row of an unpolled repository
/// unchanged at its position; leaves for each polled repository a
/// row holding exactly the fetched values — with names unique, the
/// one row of that repository; and registers no repository that was
/// neither present before nor polled. Rendering then shows exactly
/// one sample per repository per family, matching the last
/// successful fetch, and none for a repository never written.
pub proof fn lemma_cycle_updates_each_tracked(rows: Seq<RepoStat>, stats: Seq<RepoStat>)
    requires
        distinct_names(rows),
        distinct_names(stats),
    ensures
        distinct_names(apply_all(rows, stats)),
        apply_all(rows, stats).len() >= rows.len(),
        forall|i: int|
            0 <= i < rows.len() && !has_repo(stats, (#[trigger] rows[i]).repo@) ==> apply_all(
                rows,
                stats,
            )[i] == rows[i],
        forall|j: int|
            0 <= j < stats.len() ==> exists|k: int|
                0 <= k < apply_all(rows, stats).len() && apply_all(rows, stats)[k]
                    == #[trigger] stats[j],
        forall|j: int|
            0 <= j < apply_all(rows, stats).len() ==> has_repo(
                rows,
                (#[trigger] apply_all(rows, stats)[j]).repo@,
            ) || has_repo(stats, apply_all(rows, stats)[j].repo@),
    decreases stats.len(),
{
    let post = apply_all(rows, stats);
    if stats.len() == 0 {
        assert(post == rows);
        assert forall|j: int| 0 <= j < post.len() implies has_repo(
            rows,
            (#[trigger] post[j]).repo@,
        ) || has_repo(stats, post[j].repo@) by {
            assert(rows[j].repo@ == post[j].repo@);
        }
    } else {
        let s0 = stats.first();
        let rest = stats.drop_first();
        assert(forall|i: int| 0 <= i < rest.len() ==> #[trigger] rest[i] == stats[i + 1]);
        lemma_apply_stat_effects(rows, s0);
        let r1 = apply_stat(rows, s0);
        lemma_cycle_updates_each_tracked(r1, rest);
        assert(post == apply_all(r1, rest));
        assert forall|i: int|
            0 <= i < rows.len() && !has_repo(stats, (#[trigger] rows[i]).repo@) implies post[i]
            == rows[i] by {
            assert(!(rows[i].repo@ == s0.repo@)) by {
                if rows[i].repo@ == s0.repo@ {
                    assert(stats[0] == s0);
                    assert(has_repo(stats, rows[i].repo@));
                }
            }
            assert(r1[i] == rows[i]);
            assert(!has_repo(rest, r1[i].repo@)) by {
                if has_repo(rest, r1[i].repo@) {
                    let m = choose|m: int| 0 <= m < rest.len() && rest[m].repo@ == r1[i].repo@;
                    assert(stats[m + 1].repo@ == rows[i].repo@);
                    assert(has_repo(stats, rows[i].repo@));
                }
            }
        }
        assert forall|j: int| 0 <= j < stats.len() implies exists|k: int|
            0 <= k < post.len() && post[k] == #[trigger] stats[j] by {
            if j == 0 {
                let k0 = choose|k0: int| 0 <= k0 < r1.len() && r1[k0] == s0;
                assert(!has_repo(rest, r1[k0].repo@)) by {
                    if has_repo(rest, s0.repo@) {
                        let m = choose|m: int| 0 <= m < rest.len() && rest[m].repo@ == s0.repo@;
                        assert(stats[m + 1].repo@ == stats[0].repo@);
                    }
                }
                assert(post[k0] == r1[k0]);
                assert(0 <= k0 < post.len() && post[k0] == stats[j]);
            } else {
                assert(rest[j - 1] == stats[j]);
                let k1 = choose|k1: int| 0 <= k1 < post.len() && post[k1] == rest[j - 1];
                assert(0 <= k1 < post.len() && post[k1] == stats[j]);
            }
        }
        assert forall|j: int| 0 <= j < post.len() implies has_repo(
            rows,
            (#[trigger] post[j]).repo@,
        ) || has_repo(stats, post[j].repo@) by {
            if has_repo(r1, post[j].repo@) {
                let m = choose|m: int| 0 <= m < r1.len() && r1[m].repo@ == post[j].repo@;
                if r1[m].repo@ == s0.repo@ {
                    assert(stats[0].repo@ == post[j].repo@);
                    assert(has_repo(stats, post[j].repo@));
                }
            } else {
                let m = choose|m: int| 0 <= m < rest.len() && rest[m].repo@ == post[j].repo@;
                assert(stats[m + 1].repo@ == post[j].repo@);
                assert(has_repo(stats, post[j].repo@));
            }
        }
    }
}

/// Escaping passes a run of unescaped characters through unchanged.
proof fn lemma_escape_clean(s: Seq<char>)
    requires
        forall|i: int| 0 <= i < s.len() ==> !needs_escape(#[trigger] s[i]),
    ensures
        escape_label(s) == s,
    decreases s.len(),
{
    if s.len() > 0 {
        lemma_escape_clean(s.drop_last());
        assert(escape_label_char(s.last()) =~= seq![s.last()]);
        assert(escape_label(s) =~= s);
    } else {
        assert(escape_label(s) =~= s);
    }
}

/// Escaping distributes over appending a run of unescaped
/// characters.
proof fn lemma_escape_append_clean(a: Seq<char>, b: Seq<char>)
    requires
        forall|i: int| 0 <= i < b.len() ==> !needs_escape(#[trigger] b[i]),
    ensures
        escape_label(a + b) == escape_label(a) + b,
    decreases b.len(),
{
    if b.len() == 0 {
        assert(a + b =~= a);
        assert(escape_label(a) + b =~= escape_label(a));
    } else {
        assert(forall|i: int|
            0 <= i < b.drop_last().len() ==> !needs_escape(#[trigger] b.drop_last()[i]));
        lemma_escape_append_clean(a, b.drop_last());
        assert((a + b).drop_last() =~= a + b.drop_last());
        assert(escape_label_char(b.last()) =~= seq![b.last()]);
        assert(escape_label(a + b) =~= escape_label(a) + b);
    }
}

/// Escaping after one more character.
proof fn lemma_escape_snoc(a: Seq<char>, c: char)
    ensures
        escape_label(a.push(c)) == escape_label(a) + escape_label_char(c),
{
    assert(a.push(c).drop_last() =~= a);
    assert(a.push(c).last() == c);
}

/// Appends the escaped form of a label value, matching
/// `escape_label`.
fn append_escaped(out: &mut String, s: &str)
    ensures
        final(out)@ == old(out)@ + escape_label(s@),
{
    proof {
        reveal_strlit("\\\\");
        reveal_strlit("\\\"");
        reveal_strlit("\\n");
    }
    let ghost base = out@;
    let n = s.unicode_len();
    let mut start: usize = 0;
    let mut i: usize = 0;
    proof {
        assert(s@.take(0) =~= Seq::<char>::empty());
        assert(out@ =~= base + escape_label(s@.take(0)));
    }
    while i < n
        invariant
            0 <= start <= i <= n == s@.len(),
            out@ == base + escape_label(s@.take(start as int)),
            forall|k: int| start <= k < i ==> !needs_escape(#[trigger] s@[k]),
        decreases n - i,
    {
        let c = s.get_char(i);
        if c == '\\' || c == '"' || c == '\n' {
            out.append(s.substring_char(start, i));
            if c == '\\' {
                out.append("\\\\");
                proof {
                    reveal_strlit("\\\\");
                    assert("\\\\"@ =~= escape_label_char(c));
                }
            } else if c == '"' {
                out.append("\\\"");
                proof {
                    reveal_strlit("\\\"");
                    assert("\\\""@ =~= escape_label_char(c));
                }
            } else {
                out.append("\\n");
                proof {
                    reveal_strlit("\\n");
                    assert("\\n"@ =~= escape_label_char(c));
                }
            }
            proof {
                let run = s@.subrange(start as int, i as int);
                assert(forall|k: int| 0 <= k < run.len() ==> !needs_escape(#[trigger] run[k]));
                lemma_escape_append_clean(s@.take(start as int), run);
                assert(s@.take(start as int) + run =~= s@.take(i as int));
                lemma_escape_snoc(s@.take(i as int), c);
                assert(s@.take(i as int).push(c) =~= s@.take(i + 1));
                assert(out@ =~= base + escape_label(s@.take(i + 1)));
            }
            start = i + 1;
        }
        i = i + 1;
    }
    out.append(s.substring_char(start, n));
    proof {
        let run = s@.subrange(start as int, n as int);
        assert(forall|k: int| 0 <= k < run.len() ==> !needs_escape(#[trigger] run[k]));
        lemma_escape_append_clean(s@.take(start as int), run);
        assert(s@.take(start as int) + run =~= s@);
        assert(out@ =~= base + escape_label(s@));
    }
}

/// The registry: the current observation per repository, in
/// registration order, and the latest rate-limit status.
pub struct Metrics {
    /// One row per repository; names are unique.
    pub rows: Vec<RepoStat>,
    /// The latest rate-limit status, absent until first written.
    pub rate_limit: Option<RateLimitStatus>,
}

impl Metrics {
    /// The registry invariant: no repository name appears twice.
    pub open spec fn wf(self) -> bool {
        forall|i: int, j: int|
            0 <= i < j < self.rows@.len() ==> (#[trigger] self.rows@[i]).repo@ != (
            #[trigger] self.rows@[j]).repo@
    }

    /// An empty registry: no rows, no rate-limit status.
    pub fn new() -> (res: Metrics)
        ensures
            res.rows@.len() == 0,
            res.rate_limit is None,
            res.wf(),
    {
        Metrics { rows: Vec::new(), rate_limit: None }
    }

    /// Overwrites the gauges for exactly one repository: the row with
    /// the same name is replaced in place, or a new row is appended.
    /// Rows for other repositories and the rate-limit status are
    /// untouched.
    pub fn set_repo_stat(&mut self, stat: RepoStat)
        requires
            old(self).wf(),
        ensures
            final(self).wf(),
            final(self).rate_limit == old(self).rate_limit,
            final(self).rows@ == apply_stat(old(self).rows@, stat),
            forall|j: int|
                0 <= j < old(self).rows@.len() && (#[trigger] old(self).rows@[j]).repo@
                    != stat.repo@ ==> final(self).rows@[j] == old(self).rows@[j],
            has_repo(final(self).rows@, stat.repo@),
    {
        let ghost orig = self.rows@;
        let mut i: usize = 0;
        while i < self.rows.len()
            invariant
                0 <= i <= self.rows@.len(),
                self.rows@ == orig,
                old(self).wf(),
                old(self).rows@ == orig,
                self.rate_limit == old(self).rate_limit,
                forall|k: int| 0 <= k < i ==> (#[trigger] orig[k]).repo@ != stat.repo@,
            decreases self.rows@.len() - i,
        {
            if self.rows[i].repo.eq(&stat.repo) {
                proof {
                    assert(orig[i as int].repo@ == stat.repo@);
                    assert(has_repo(orig, stat.repo@));
                    let j = repo_index(orig, stat.repo@);
                    assert(0 <= j < orig.len() && orig[j].repo@ == stat.repo@);
                    if j < i {
                        assert(orig[j].repo@ != stat.repo@);
                    } else if i < j {
                        assert(orig[i as int].repo@ != orig[j].repo@);
                    }
                    assert(j == i as int);
                }
                self.rows.set(i, stat);
                proof {
                    let updated = orig.update(i as int, stat);
                    assert forall|a: int, b: int|
                        0 <= a < b < updated.len() implies (#[trigger] updated[a]).repo@ != (
                    #[trigger] updated[b]).repo@ by {
                        assert(updated[a].repo@ == orig[a].repo@);
                        assert(updated[b].repo@ == orig[b].repo@);
                    }
                    assert(updated[i as int].repo@ == stat.repo@);
                }
                return;
            }
            i = i + 1;
        }
        proof {
            assert forall|k: int| 0 <= k < orig.len() implies (#[trigger] orig[k]).repo@
                != stat.repo@ by {}
            assert(!has_repo(orig, stat.repo@));
        }
        self.rows.push(stat);
        proof {
            let pushed = orig.push(stat);
            assert forall|a: int, b: int| 0 <= a < b < pushed.len() implies (
            #[trigger] pushed[a]).repo@ != (#[trigger] pushed[b]).repo@ by {
                if b < pushed.len() - 1 {
                    assert(pushed[a] == orig[a] && pushed[b] == orig[b]);
                } else {
                    assert(pushed[a] == orig[a] && pushed[b] == stat);
                }
            }
            assert(pushed[pushed.len() - 1].repo@ == stat.repo@);
        }
    }

    /// Overwrites the rate-limit status; rows are untouched.
    pub fn set_rate_limit(&mut self, rl: RateLimitStatus)
        requires
            old(self).wf(),
        ensures
            final(self).wf(),
            final(self).rows@ == old(self).rows@,
            final(self).rate_limit == Some(rl),
    {
        self.rate_limit = Some(rl);
    }

    /// The gauge value a field selects, matching `field_of`.
    fn gauge_value(r: &RepoStat, f: GaugeField) -> (res: u64)
        ensures
            res == field_of(*r, f),
    {
        match f {
            GaugeField::Stars => r.stars,
            GaugeField::Forks => r.forks,
            GaugeField::OpenIssues => r.open_issues,
            GaugeField::Watchers => r.watchers,
        }
    }

    /// Appends one per-repository family to the buffer.
    fn append_repo_family(
        out: &mut String,
        name: &str,
        help: &str,
        rows: &Vec<RepoStat>,
        f: GaugeField,
    )
        ensures
            final(out)@ == old(out)@ + repo_family(name@, help@, rows@, f),
    {
        let ghost base = out@;
        out.append("# HELP ");
        out.append(name);
        out.append(" ");
        out.append(help);
        out.append("\n");
        out.append("# TYPE ");
        out.append(name);
        out.append(" gauge\n");
        proof {
            assert(out@ =~= base + family_header(name@, help@));
        }
        let ghost header_done = out@;
        let mut i: usize = 0;
        while i < rows.len()
            invariant
                0 <= i <= rows@.len(),
                out@ == header_done + repo_samples(name@, rows@.take(i as int), f),
                header_done == base + family_header(name@, help@),
            decreases rows@.len() - i,
        {
            let value = Self::gauge_value(&rows[i], f);
            let text = u64_to_dec(value);
            out.append(name);
            out.append("{repo=\"");
            append_escaped(out, rows[i].repo.as_str());
            out.append("\"} ");
            out.append(text.as_str());
            out.append("\n");
            proof {
                assert(rows@.take(i + 1).drop_last() =~= rows@.take(i as int));
                assert(rows@.take(i + 1).last() == rows@[i as int]);
                assert(out@ =~= header_done + repo_samples(name@, rows@.take(i + 1), f));
            }
            i = i + 1;
        }
        proof {
            assert(rows@.take(rows@.len() as int) =~= rows@);
            assert(out@ =~= base + repo_family(name@, help@, rows@, f));
        }
    }

    /// Appends one unlabeled family to the buffer.
    fn append_plain_family(out: &mut String, name: &str, help: &str, value: Option<u64>)
        ensures
            final(out)@ == old(out)@ + plain_family(name@, help@, value),
    {
        let ghost base = out@;
        out.append("# HELP ");
        out.append(name);
        out.append(" ");
        out.append(help);
        out.append("\n");
        out.append("# TYPE ");
        out.append(name);
        out.append(" gauge\n");
        proof {
            assert(out@ =~= base + family_header(name@, help@));
        }
        match value {
            Some(v) => {
                let text = u64_to_dec(v);
                out.append(name);
                out.append(" ");
                out.append(text.as_str());
                out.append("\n");
                proof {
                    assert(out@ =~= base + plain_family(name@, help@, value));
                }
            },
            None => {
                proof {
                    assert(out@ =~= base + plain_family(name@, help@, value));
                }
            },
        }
    }

    /// Renders the current snapshot in the plaintext exposition
    /// grammar: for each family its help and type lines, then one
    /// gauge sample per registered label combination, in stable
    /// registration order.
    pub fn render_text(&self) -> (res: String)
        ensures
            res@ == render_spec(self.rows@, self.rate_limit),
    {
        let mut out = String::new();
        Self::append_repo_family(
            &mut out,
            "github_repo_stars",
            "Number of stars for a repo",
            &self.rows,
            GaugeField::Stars,
        );
        Self::append_repo_family(
            &mut out,
            "github_repo_forks",
            "Number of forks for a repo",
            &self.rows,
            GaugeField::Forks,
        );
        Self::append_repo_family(
            &mut out,
            "github_repo_open_issues",
            "Number of open issues for a repo",
            &self.rows,
            GaugeField::OpenIssues,
        );
        Self::append_repo_family(
            &mut out,
            "github_repo_watchers",
            "Number of watchers for a repo",
            &self.rows,
            GaugeField::Watchers,
        );
        let remaining = match &self.rate_limit {
            Some(x) => Some(x.remaining),
            None => None,
        };
        let reset = match &self.rate_limit {
            Some(x) => Some(x.reset),
            None => None,
        };
        Self::append_plain_family(
            &mut out,
            "github_rate_limit_remaining",
            "Remaining API requests for the current rate limit window",
            remaining,
        );
        Self::append_plain_family(
            &mut out,
            "github_rate_limit_reset",
            "Unix timestamp when the GitHub API rate limit resets",
            reset,
        );
        proof {
            assert(out@ =~= render_spec(self.rows@, self.rate_limit));
        }
        out
    }

    /// Gathers the registry contents as exposition text; the same
    /// snapshot `render_text` produces.
    pub fn gather_text(&self) -> (res: String)
        ensures
            res@ == render_spec(self.rows@, self.rate_limit),
    {
        self.render_text()
    }
}

} // verus!
