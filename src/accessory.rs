//! Accessories: long-running auxiliary containers (databases, caches) run
//! next to the application.

use vstd::prelude::*;
use crate::config::{AccessoryConfig, ShipitConfig};
use crate::text::{push_all, str_eq};

verus! {

/// The container name of an accessory: `<app>-<accessory>`.
pub fn container_name(app_name: &str, accessory_name: &str) -> (r: String)
    ensures
        r@ == app_name@ + "-"@ + accessory_name@,
{
    let mut r = String::new();
    push_all(&mut r, app_name);
    push_all(&mut r, "-");
    push_all(&mut r, accessory_name);
    r
}

pub open spec fn env_flags(env: Seq<(String, String)>) -> Seq<char>
    decreases env.len(),
{
    if env.len() == 0 {
        seq![]
    } else {
        env_flags(env.drop_last()) + " -e "@ + env.last().0@ + "="@ + env.last().1@
    }
}

pub open spec fn volume_flags(vols: Seq<String>) -> Seq<char>
    decreases vols.len(),
{
    if vols.len() == 0 {
        seq![]
    } else {
        volume_flags(vols.drop_last()) + " -v "@ + vols.last()@
    }
}

/// The `docker run` command of an accessory.
pub open spec fn run_command_spec(name: Seq<char>, a: AccessoryConfig) -> Seq<char> {
    "docker run -d --name "@ + name + " --restart always"@ + (match a.port {
        Some(p) => " -p "@ + p@,
        None => seq![],
    }) + env_flags(a.env@) + volume_flags(a.volumes@) + " --network traefik"@ + " "@ + a.image@
        + (match a.cmd {
        Some(c) => " "@ + c@,
        None => seq![],
    })
}

/// The `docker run` command of an accessory: detached, restarted always,
/// with its port, environment and volumes, on the `traefik` network.
pub fn build_run_command(name: &str, accessory: &AccessoryConfig) -> (r: String)
    ensures
        r@ == run_command_spec(name@, *accessory),
{
    let mut r = String::new();
    push_all(&mut r, "docker run -d --name ");
    push_all(&mut r, name);
    push_all(&mut r, " --restart always");
    if let Some(p) = &accessory.port {
        push_all(&mut r, " -p ");
        push_all(&mut r, p.as_str());
    }
    let ghost head = r@;
    let mut i: usize = 0;
    while i < accessory.env.len()
        invariant
            i <= accessory.env@.len(),
            r@ == head + env_flags(accessory.env@.subrange(0, i as int)),
        decreases accessory.env@.len() - i,
    {
        assert(accessory.env@.subrange(0, i + 1).drop_last() =~= accessory.env@.subrange(0, i as int));
        push_all(&mut r, " -e ");
        push_all(&mut r, accessory.env[i].0.as_str());
        push_all(&mut r, "=");
        push_all(&mut r, accessory.env[i].1.as_str());
        i = i + 1;
        assert(r@ =~= head + env_flags(accessory.env@.subrange(0, i as int)));
    }
    assert(accessory.env@.subrange(0, accessory.env@.len() as int) =~= accessory.env@);
    let ghost mid = r@;
    let mut k: usize = 0;
    while k < accessory.volumes.len()
        invariant
            k <= accessory.volumes@.len(),
            r@ == mid + volume_flags(accessory.volumes@.subrange(0, k as int)),
        decreases accessory.volumes@.len() - k,
    {
        assert(accessory.volumes@.subrange(0, k + 1).drop_last() =~= accessory.volumes@.subrange(0, k as int));
        push_all(&mut r, " -v ");
        push_all(&mut r, accessory.volumes[k].as_str());
        k = k + 1;
        assert(r@ =~= mid + volume_flags(accessory.volumes@.subrange(0, k as int)));
    }
    assert(accessory.volumes@.subrange(0, accessory.volumes@.len() as int) =~= accessory.volumes@);
    push_all(&mut r, " --network traefik");
    push_all(&mut r, " ");
    push_all(&mut r, accessory.image.as_str());
    if let Some(c) = &accessory.cmd {
        push_all(&mut r, " ");
        push_all(&mut r, c.as_str());
    }
    assert(r@ =~= run_command_spec(name@, *accessory));
    r
}

/// Where to connect for an accessory host.
pub struct SshTarget {
    pub user: String,
    pub address: String,
    pub port: Option<u16>,
}

/// Whether stage `s` (in order) has a host at `address`, and none before.
pub open spec fn stage_has_host(c: ShipitConfig, s: int, h: int, address: Seq<char>) -> bool {
    &&& 0 <= s < c.stages@.len()
    &&& 0 <= h < c.stages@[s].1.hosts@.len()
    &&& c.stages@[s].1.hosts@[h].address@ == address
}

/// The connection for the host whose address is `accessory_host`: the
/// first such host of the first stage that has one, with that stage's user
/// (`deploy` by default) and port.
pub fn find_ssh_target(config: &ShipitConfig, accessory_host: &str) -> (r: Option<SshTarget>)
    ensures
        match r {
            Some(t) => exists|s: int, h: int| {
                &&& stage_has_host(*config, s, h, accessory_host@)
                &&& t.address@ == accessory_host@
                &&& t.port == config.stages@[s].1.port
                &&& t.user@ == match config.stages@[s].1.user {
                    Some(u) => u@,
                    None => "deploy"@,
                }
                &&& forall|s2: int, h2: int| s2 < s ==> !stage_has_host(*config, s2, h2, accessory_host@)
            },
            None => forall|s: int, h: int| !stage_has_host(*config, s, h, accessory_host@),
        },
{
    let mut s: usize = 0;
    while s < config.stages.len()
        invariant
            s <= config.stages@.len(),
            forall|s2: int, h2: int| s2 < s ==> !stage_has_host(*config, s2, h2, accessory_host@),
        decreases config.stages@.len() - s,
    {
        let stage = &config.stages[s].1;
        let mut h: usize = 0;
        while h < stage.hosts.len()
            invariant
                s < config.stages@.len(),
                *stage == config.stages@[s as int].1,
                h <= stage.hosts@.len(),
                forall|s2: int, h2: int| s2 < s ==> !stage_has_host(*config, s2, h2, accessory_host@),
                forall|h2: int| 0 <= h2 < h ==> !stage_has_host(*config, s as int, h2, accessory_host@),
            decreases stage.hosts@.len() - h,
        {
            if str_eq(stage.hosts[h].address.as_str(), accessory_host) {
                let user = match &stage.user {
                    Some(u) => u.clone(),
                    None => String::from_str("deploy"),
                };
                let t = SshTarget { user, address: stage.hosts[h].address.clone(), port: stage.port };
                assert(stage_has_host(*config, s as int, h as int, accessory_host@));
                return Some(t);
            }
            h = h + 1;
        }
        s = s + 1;
    }
    None
}

/// The text after the last `.` (all of it when there is none).
pub open spec fn last_segment(s: Seq<char>) -> Seq<char>
    decreases s.len(),
{
    if s.len() == 0 {
        s
    } else if s.last() == '.' {
        seq![]
    } else {
        last_segment(s.drop_last()).push(s.last())
    }
}

pub open spec fn is_digit(c: char) -> bool {
    '0' <= c && c <= '9'
}

/// The value of a string of decimal digits.
pub open spec fn digits_value(s: Seq<char>) -> nat
    decreases s.len(),
{
    if s.len() == 0 {
        0
    } else {
        digits_value(s.drop_last()) * 10 + (s.last() as nat - 48) as nat
    }
}

/// `s` without a leading `+`.
pub open spec fn unsigned_part(s: Seq<char>) -> Seq<char> {
    if s.len() > 0 && s[0] == '+' {
        s.drop_first()
    } else {
        s
    }
}

/// One or more digits whose value fits in a `usize`.
pub open spec fn parse_digits_spec(d: Seq<char>) -> Option<nat> {
    if d.len() > 0 && (forall|i: int| 0 <= i < d.len() ==> is_digit(#[trigger] d[i])) && digits_value(d)
        <= usize::MAX {
        Some(digits_value(d))
    } else {
        None
    }
}

/// What `str::parse::<usize>` gives: an optional `+`, then one or more
/// digits whose value fits.
pub open spec fn parse_usize_spec(s: Seq<char>) -> Option<nat> {
    parse_digits_spec(unsigned_part(s))
}

proof fn lemma_digits_value_mono(s: Seq<char>, k: int)
    requires
        0 <= k <= s.len(),
        forall|i: int| 0 <= i < s.len() ==> is_digit(#[trigger] s[i]),
    ensures
        digits_value(s.subrange(0, k)) <= digits_value(s),
    decreases s.len() - k,
{
    if k < s.len() {
        let t = s.drop_last();
        assert forall|i: int| 0 <= i < t.len() implies is_digit(#[trigger] t[i]) by {
            assert(t[i] == s[i]);
        }
        if k <= t.len() {
            lemma_digits_value_mono(t, k);
            assert(t.subrange(0, k) =~= s.subrange(0, k));
        }
    } else {
        assert(s.subrange(0, k) =~= s);
    }
}

fn parse_usize(v: &Vec<char>, lo: usize) -> (r: Option<usize>)
    requires
        lo <= v@.len(),
    ensures
        match r {
            Some(n) => parse_usize_spec(v@.subrange(lo as int, v@.len() as int)) == Some(n as nat),
            None => parse_usize_spec(v@.subrange(lo as int, v@.len() as int)) is None,
        },
{
    let ghost s = v@.subrange(lo as int, v@.len() as int);
    let n = v.len();
    let mut i = lo;
    if i < n && v[i] == '+' {
        i = i + 1;
    }
    let ghost d = v@.subrange(i as int, n as int);
    proof {
        if s.len() > 0 && s[0] == '+' {
            assert(i == lo + 1);
            assert(d =~= s.drop_first());
        } else {
            assert(i == lo);
            assert(d =~= s);
        }
    }
    if i == n {
        return None;
    }
    let start = i;
    let mut val: usize = 0;
    while i < n
        invariant
            lo <= start <= i <= n == v@.len(),
            d.len() > 0,
            d == v@.subrange(start as int, n as int),
            s == v@.subrange(lo as int, n as int),
            d == unsigned_part(s),
            forall|j: int| 0 <= j < i - start ==> is_digit(#[trigger] d[j]),
            val as nat == digits_value(d.subrange(0, i - start)),
        decreases n - i,
    {
        let c = v[i];
        if !('0' <= c && c <= '9') {
            proof {
                assert(d[i - start] == c);
                assert(!is_digit(d[i - start]));
                assert(!(forall|j: int| 0 <= j < d.len() ==> is_digit(#[trigger] d[j])));
                assert(parse_digits_spec(d) is None);
            }
            return None;
        }
        let digit = (c as u32 - 48) as usize;
        assert(d.subrange(0, i - start + 1).drop_last() =~= d.subrange(0, i - start));
        if val > (usize::MAX - digit) / 10 {
            proof {
                assert(val * 10 + digit > usize::MAX) by (nonlinear_arith)
                    requires
                        val > (usize::MAX - digit) / 10,
                        digit <= 9,
                ;
                let p = d.subrange(0, i - start + 1);
                assert(p.drop_last() =~= d.subrange(0, i - start));
                assert(p.last() == c);
                assert(digits_value(p) == val * 10 + digit);
                if forall|j: int| 0 <= j < d.len() ==> is_digit(#[trigger] d[j]) {
                    lemma_digits_value_mono(d, i - start + 1);
                    assert(digits_value(d) > usize::MAX);
                }
                assert(parse_digits_spec(d) is None);
            }
            return None;
        }
        proof {
            assert(val * 10 + digit <= usize::MAX) by (nonlinear_arith)
                requires
                    val <= (usize::MAX - digit) / 10,
                    digit <= 9,
            ;
        }
        val = val * 10 + digit;
        i = i + 1;
    }
    assert(d.subrange(0, n - start) =~= d);
    Some(val)
}

/// The stage host that a mesh address names: for `10.10.0.<n>`, the host
/// at index `n - 1` (0 for `n = 0`), when `n` reads as a number.
pub fn wireguard_host_index(accessory_host: &str) -> (r: Option<usize>)
    ensures
        match r {
            Some(i) => accessory_host@.len() >= 8 && accessory_host@.subrange(0, 8) == "10.10.0."@ && (
            parse_usize_spec(last_segment(accessory_host@)) matches Some(n) && i as nat == if n > 0 {
                (n - 1) as nat
            } else {
                0
            }),
            None => !(accessory_host@.len() >= 8 && accessory_host@.subrange(0, 8) == "10.10.0."@) || parse_usize_spec(
                last_segment(accessory_host@),
            ) is None,
        },
{
    let v = crate::text::chars_of(accessory_host);
    let prefix = crate::text::chars_of("10.10.0.");
    proof {
        reveal_strlit("10.10.0.");
    }
    let n = v.len();
    if n < 8 {
        return None;
    }
    let mut k: usize = 0;
    while k < 8
        invariant
            k <= 8 <= n == v@.len(),
            v@ == accessory_host@,
            prefix@ == "10.10.0."@,
            prefix@.len() == 8,
            v@.subrange(0, k as int) == prefix@.subrange(0, k as int),
        decreases 8 - k,
    {
        if v[k] != prefix[k] {
            assert(v@.subrange(0, 8)[k as int] != prefix@[k as int]);
            return None;
        }
        assert(v@.subrange(0, k + 1) =~= v@.subrange(0, k as int).push(v@[k as int]));
        assert(prefix@.subrange(0, k + 1) =~= prefix@.subrange(0, k as int).push(prefix@[k as int]));
        k = k + 1;
    }
    assert(prefix@.subrange(0, 8) =~= prefix@);
    // the last segment starts after the last '.'
    let mut lo: usize = n;
    assert(v@.subrange(0, n as int) =~= v@);
    assert(v@.subrange(n as int, n as int) =~= Seq::<char>::empty());
    assert(last_segment(v@) =~= last_segment(v@) + Seq::<char>::empty());
    while lo > 0 && v[lo - 1] != '.'
        invariant
            lo <= n == v@.len(),
            last_segment(v@) == last_segment(v@.subrange(0, lo as int)) + v@.subrange(lo as int, n as int),
        decreases lo,
    {
        proof {
            let t = v@.subrange(0, lo as int);
            assert(t.drop_last() =~= v@.subrange(0, lo - 1));
            assert(v@.subrange(lo - 1, n as int) =~= seq![t.last()] + v@.subrange(lo as int, n as int));
            assert(last_segment(t) == last_segment(t.drop_last()).push(t.last()));
            assert(last_segment(t.drop_last()).push(t.last()) + v@.subrange(lo as int, n as int) =~= last_segment(
                t.drop_last(),
            ) + v@.subrange(lo - 1, n as int));
        }
        lo = lo - 1;
    }
    proof {
        let t = v@.subrange(0, lo as int);
        if lo > 0 {
            assert(last_segment(t) == Seq::<char>::empty());
        } else {
            assert(t.len() == 0);
            assert(last_segment(t) == t);
        }
        assert(last_segment(v@) =~= v@.subrange(lo as int, n as int));
    }
    match parse_usize(&v, lo) {
        Some(x) => Some(if x > 0 {
            x - 1
        } else {
            0
        }),
        None => None,
    }
}

} // verus!
