//! Parsing of the container and disk status that the monitor shows.

use vstd::prelude::*;
use crate::text::{chars_of, is_ws, is_ws_char, push_all, str_eq, string_of_range, trim, trim_seq};

verus! {

/// Fields of `s` split at whitespace: the ones completed so far and the
/// one being read.
pub open spec fn fields_acc(s: Seq<char>) -> (Seq<Seq<char>>, Seq<char>)
    decreases s.len(),
{
    if s.len() == 0 {
        (seq![], seq![])
    } else {
        let p = fields_acc(s.drop_last());
        if is_ws(s.last()) {
            if p.1.len() > 0 {
                (p.0.push(p.1), seq![])
            } else {
                p
            }
        } else {
            (p.0, p.1.push(s.last()))
        }
    }
}

/// The whitespace-separated fields of `s`.
pub open spec fn fields_of(s: Seq<char>) -> Seq<Seq<char>> {
    let p = fields_acc(s);
    if p.1.len() > 0 {
        p.0.push(p.1)
    } else {
        p.0
    }
}

/// The whitespace-separated fields of `s`.
pub fn fields(s: &str) -> (r: Vec<String>)
    ensures
        crate::text::views(r@) == fields_of(s@),
{
    let v = chars_of(s);
    let n = v.len();
    let mut r: Vec<String> = Vec::new();
    let mut start: usize = 0;
    let mut i: usize = 0;
    while i < n
        invariant
            n == v@.len(),
            v@ == s@,
            start <= i <= n,
            (crate::text::views(r@), v@.subrange(start as int, i as int)) == fields_acc(v@.subrange(0, i as int)),
        decreases n - i,
    {
        let ghost cur = v@.subrange(start as int, i as int);
        assert(v@.subrange(0, i + 1).drop_last() =~= v@.subrange(0, i as int));
        if is_ws_char(v[i]) {
            if i > start {
                let f = string_of_range(&v, start, i);
                let ghost old_r = r@;
                r.push(f);
                assert(crate::text::views(r@) =~= crate::text::views(old_r).push(f@));
            }
            start = i + 1;
            assert(v@.subrange(start as int, i + 1) =~= seq![]);
        } else {
            assert(v@.subrange(start as int, i + 1) =~= cur.push(v@[i as int]));
        }
        i = i + 1;
    }
    assert(v@.subrange(0, n as int) =~= s@);
    if start < n {
        let f = string_of_range(&v, start, n);
        let ghost old_r = r@;
        r.push(f);
        assert(crate::text::views(r@) =~= crate::text::views(old_r).push(f@));
    }
    r
}

/// Disk usage of the deploy directory's file system, as `df` prints it.
#[derive(Debug)]
pub struct DiskInfo {
    pub size: String,
    pub used: String,
    pub avail: String,
    pub use_percent: String,
}

/// A `df` data line: its first four fields, or none if it has fewer.
pub fn parse_disk(output: &str) -> (r: Option<DiskInfo>)
    ensures
        match r {
            Some(d) => {
                let f = fields_of(trim_seq(output@));
                &&& f.len() >= 4
                &&& d.size@ == f[0] && d.used@ == f[1] && d.avail@ == f[2] && d.use_percent@ == f[3]
            },
            None => fields_of(trim_seq(output@)).len() < 4,
        },
{
    let line = trim(output);
    if line.unicode_len() == 0 {
        proof {
            assert(fields_acc(line@).0.len() == 0 && fields_acc(line@).1.len() == 0);
        }
        return None;
    }
    let mut parts = fields(line.as_str());
    if parts.len() >= 4 {
        let ghost f = crate::text::views(parts@);
        assert(f[0] == parts@[0]@ && f[1] == parts@[1]@ && f[2] == parts@[2]@ && f[3] == parts@[3]@);
        let use_percent = parts.remove(3);
        let avail = parts.remove(2);
        let used = parts.remove(1);
        let size = parts.remove(0);
        Some(DiskInfo { size, used, avail, use_percent })
    } else {
        None
    }
}

/// `s` cut to at most `max` characters, the cut marked by `...`.
pub open spec fn truncate_spec(s: Seq<char>, max: nat) -> Seq<char> {
    if s.len() > max {
        s.subrange(0, if max >= 3 { max - 3 } else { 0 }) + "..."@
    } else {
        s
    }
}

/// `s` cut to at most `max` characters, the cut marked by `...`.
pub fn truncate(s: &str, max: usize) -> (r: String)
    ensures
        r@ == truncate_spec(s@, max as nat),
{
    let v = chars_of(s);
    if v.len() > max {
        let keep = if max >= 3 {
            max - 3
        } else {
            0
        };
        let mut r = string_of_range(&v, 0, keep);
        push_all(&mut r, "...");
        r
    } else {
        string_of_range(&v, 0, v.len())
    }
}

/// One row of `docker ps`.
pub struct DockerPsEntry {
    pub id: String,
    pub names: String,
    pub image: String,
    pub status: String,
    pub ports: String,
    pub state: String,
}

/// One row of `docker stats`.
pub struct DockerStatsEntry {
    pub name: String,
    pub cpu_perc: String,
    pub mem_usage: String,
    pub mem_perc: String,
}

/// A container with its resource use.
#[derive(Debug)]
pub struct ContainerInfo {
    pub name: String,
    pub image: String,
    pub status: String,
    pub state: String,
    pub cpu_perc: String,
    pub mem_usage: String,
    pub mem_perc: String,
    pub ports: String,
}

/// The index of the last stats row for container `name`.
pub open spec fn last_stats(stats: Seq<DockerStatsEntry>, name: Seq<char>, n: int) -> Option<int>
    decreases n,
{
    if n <= 0 {
        None
    } else if stats[n - 1].name@ == name {
        Some(n - 1)
    } else {
        last_stats(stats, name, n - 1)
    }
}

/// The index of the first occurrence of `pat` in `h` at or after `from`.
pub open spec fn find_from(h: Seq<char>, pat: Seq<char>, from: int) -> Option<int>
    decreases h.len() + 1 - from,
{
    if from < 0 || from + pat.len() > h.len() {
        None
    } else if h.subrange(from, from + pat.len()) == pat {
        Some(from)
    } else {
        find_from(h, pat, from + 1)
    }
}

/// The part of a memory usage text before ` / ` (the used amount).
pub open spec fn mem_used(s: Seq<char>) -> Seq<char> {
    match find_from(s, " / "@, 0) {
        Some(i) => s.subrange(0, i),
        None => s,
    }
}

fn mem_used_exec(s: &str) -> (r: String)
    ensures
        r@ == mem_used(s@),
{
    let v = chars_of(s);
    let n = v.len();
    proof {
        reveal_strlit(" / ");
    }
    let mut i: usize = 0;
    while n >= 3 && i <= n - 3
        invariant
            n == v@.len(),
            v@ == s@,
            find_from(s@, " / "@, 0) == find_from(s@, " / "@, i as int),
        decreases n - i,
    {
        proof {
            reveal_strlit(" / ");
        }
        if v[i] == ' ' && v[i + 1] == '/' && v[i + 2] == ' ' {
            assert(s@.subrange(i as int, i + 3) =~= " / "@);
            return string_of_range(&v, 0, i);
        }
        proof {
            let w = s@.subrange(i as int, i + 3);
            if w == " / "@ {
                assert(w[0] == ' ' && w[1] == '/' && w[2] == ' ');
            }
        }
        i = i + 1;
    }
    proof {
        reveal_strlit(" / ");
    }
    string_of_range(&v, 0, n)
}

/// The containers of `docker ps`, each with the resource use of the last
/// `docker stats` row of the same name (empty when there is none; memory
/// as the used amount only).
pub fn merge_ps_stats(ps_entries: Vec<DockerPsEntry>, stats_entries: Vec<DockerStatsEntry>) -> (r: Vec<ContainerInfo>)
    ensures
        r@.len() == ps_entries@.len(),
        forall|i: int| 0 <= i < r@.len() ==> {
            let c = #[trigger] r@[i];
            let p = ps_entries@[i];
            &&& c.name@ == p.names@ && c.image@ == p.image@ && c.status@ == p.status@
            &&& c.state@ == p.state@ && c.ports@ == p.ports@
            &&& match last_stats(stats_entries@, p.names@, stats_entries@.len() as int) {
                Some(k) => c.cpu_perc@ == stats_entries@[k].cpu_perc@ && c.mem_usage@ == mem_used(
                    stats_entries@[k].mem_usage@,
                ) && c.mem_perc@ == stats_entries@[k].mem_perc@,
                None => c.cpu_perc@.len() == 0 && c.mem_usage@.len() == 0 && c.mem_perc@.len() == 0,
            }
        },
{
    let mut r: Vec<ContainerInfo> = Vec::new();
    let mut i: usize = 0;
    while i < ps_entries.len()
        invariant
            i <= ps_entries@.len(),
            r@.len() == i,
            forall|t: int| 0 <= t < i ==> {
                let c = #[trigger] r@[t];
                let p = ps_entries@[t];
                &&& c.name@ == p.names@ && c.image@ == p.image@ && c.status@ == p.status@
                &&& c.state@ == p.state@ && c.ports@ == p.ports@
                &&& match last_stats(stats_entries@, p.names@, stats_entries@.len() as int) {
                    Some(k) => c.cpu_perc@ == stats_entries@[k].cpu_perc@ && c.mem_usage@ == mem_used(
                        stats_entries@[k].mem_usage@,
                    ) && c.mem_perc@ == stats_entries@[k].mem_perc@,
                    None => c.cpu_perc@.len() == 0 && c.mem_usage@.len() == 0 && c.mem_perc@.len() == 0,
                }
            },
        decreases ps_entries@.len() - i,
    {
        let p = &ps_entries[i];
        let mut k: usize = stats_entries.len();
        while k > 0
            invariant
                k <= stats_entries@.len(),
                last_stats(stats_entries@, p.names@, stats_entries@.len() as int) == last_stats(stats_entries@, p.names@, k as int),
            ensures
                k <= stats_entries@.len(),
                last_stats(stats_entries@, p.names@, stats_entries@.len() as int) == last_stats(stats_entries@, p.names@, k as int),
                k > 0 ==> stats_entries@[k - 1].name@ == p.names@,
            decreases k,
        {
            if str_eq(stats_entries[k - 1].name.as_str(), p.names.as_str()) {
                break;
            }
            k = k - 1;
        }
        let c = if k > 0 {
            let st = &stats_entries[k - 1];
            ContainerInfo {
                name: p.names.clone(),
                image: p.image.clone(),
                status: p.status.clone(),
                state: p.state.clone(),
                cpu_perc: st.cpu_perc.clone(),
                mem_usage: mem_used_exec(st.mem_usage.as_str()),
                mem_perc: st.mem_perc.clone(),
                ports: p.ports.clone(),
            }
        } else {
            ContainerInfo {
                name: p.names.clone(),
                image: p.image.clone(),
                status: p.status.clone(),
                state: p.state.clone(),
                cpu_perc: String::new(),
                mem_usage: String::new(),
                mem_perc: String::new(),
                ports: p.ports.clone(),
            }
        };
        proof {
            if k > 0 {
                assert(last_stats(stats_entries@, p.names@, k as int) == Some(k - 1));
            } else {
                assert(last_stats(stats_entries@, p.names@, 0) is None);
            }
        }
        let ghost old_r = r@;
        r.push(c);
        assert(forall|t: int| 0 <= t < i ==> r@[t] == old_r[t]);
        i = i + 1;
    }
    r
}

} // verus!
