use vstd::prelude::*;
use vstd::string::{StrSliceExecFns, StringExecFns};

verus! {

/// Map colours of the lines by name.
pub open spec fn color_table() -> Seq<(Seq<char>, Seq<char>)> {
    seq![
        ("bakerloo"@, "#B36305"@),
        ("central"@, "#E32017"@),
        ("circle"@, "#FFD300"@),
        ("district"@, "#00782A"@),
        ("dlr"@, "#00A4A7"@),
        ("elizabeth"@, "#6950A1"@),
        ("hammersmith-city"@, "#F3A9BB"@),
        ("jubilee"@, "#A0A5A9"@),
        ("london-cable-car"@, "#AF174C"@),
        ("london-overground"@, "#EE7C0E"@),
        ("metropolitan"@, "#9B0056"@),
        ("northern"@, "#000000"@),
        ("piccadilly"@, "#003688"@),
        ("thameslink"@, "#C1007C"@),
        ("tram"@, "#84B817"@),
        ("victoria"@, "#0098D4"@),
        ("waterloo-city"@, "#95CDBA"@),
        ("liberty"@, "#4C6366"@),
        ("lioness"@, "#FFA32B"@),
        ("mildmay"@, "#088ECC"@),
        ("suffragette"@, "#59C274"@),
        ("weaver"@, "#B43983"@),
        ("windrush"@, "#FF2E24"@),
    ]
}

/// The colour of the first entry of `table[k..]` named `name`, or white.
pub open spec fn map_color_from(table: Seq<(Seq<char>, Seq<char>)>, name: Seq<char>, k: int) -> Seq<char>
    decreases table.len() - k,
{
    if k < 0 || k >= table.len() {
        "#FFFFFF"@
    } else if table[k].0 == name {
        table[k].1
    } else {
        map_color_from(table, name, k + 1)
    }
}

fn color_entries() -> (r: Vec<(&'static str, &'static str)>)
    ensures
        r@.map_values(|e: (&'static str, &'static str)| (e.0@, e.1@)) == color_table(),
{
    let r = vec![
        ("bakerloo", "#B36305"),
        ("central", "#E32017"),
        ("circle", "#FFD300"),
        ("district", "#00782A"),
        ("dlr", "#00A4A7"),
        ("elizabeth", "#6950A1"),
        ("hammersmith-city", "#F3A9BB"),
        ("jubilee", "#A0A5A9"),
        ("london-cable-car", "#AF174C"),
        ("london-overground", "#EE7C0E"),
        ("metropolitan", "#9B0056"),
        ("northern", "#000000"),
        ("piccadilly", "#003688"),
        ("thameslink", "#C1007C"),
        ("tram", "#84B817"),
        ("victoria", "#0098D4"),
        ("waterloo-city", "#95CDBA"),
        ("liberty", "#4C6366"),
        ("lioness", "#FFA32B"),
        ("mildmay", "#088ECC"),
        ("suffragette", "#59C274"),
        ("weaver", "#B43983"),
        ("windrush", "#FF2E24"),
    ];
    assert(r@.map_values(|e: (&'static str, &'static str)| (e.0@, e.1@)) =~= color_table());
    r
}

/// The colour a line is drawn in on the map; white for an unknown line.
pub fn get_line_color(line_name: &str) -> (c: &'static str)
    ensures
        c@ == map_color_from(color_table(), line_name@, 0),
{
    let entries = color_entries();
    let target = line_name.to_owned();
    let ghost table = color_table();
    let mut k: usize = 0;
    while k < entries.len()
        invariant
            entries@.map_values(|e: (&'static str, &'static str)| (e.0@, e.1@)) == table,
            table == color_table(),
            target@ == line_name@,
            k <= entries@.len(),
            map_color_from(table, line_name@, 0) == map_color_from(table, line_name@, k as int),
        decreases entries@.len() - k,
    {
        let e = entries[k];
        assert((e.0@, e.1@) == table[k as int]);
        if e.0.to_owned() == target {
            return e.1;
        }
        k = k + 1;
    }
    "#FFFFFF"
}

/// A platform of a station, as the platforms feed describes it.
#[derive(Debug)]
pub struct Platform {
    pub platform_unique_id: String,
    pub station_unique_id: String,
    pub platform_number: Option<String>,
    pub cardinal_direction: Option<String>,
    pub platform_naptan_code: Option<String>,
    pub platform_friendly_name: String,
    pub is_customer_facing: bool,
    pub has_service_interchange: bool,
    pub station_name: String,
    pub fare_zones: String,
    pub hub_naptan_code: Option<String>,
    pub wifi: bool,
    pub outside_station_unique_id: String,
    pub stop_area_naptan_code: String,
    pub line: String,
    pub direction_towards: Option<String>,
    pub platform_service_group_name: Option<String>,
}

/// The stations that one line serves, in increasing order, each once.
#[derive(Debug)]
pub struct LineStations {
    pub line: String,
    pub stations: Vec<String>,
}

/// Strict lexicographic order of character sequences, by code point.
pub open spec fn seq_less(a: Seq<char>, b: Seq<char>) -> bool
    decreases a.len(),
{
    if a.len() == 0 {
        b.len() > 0
    } else if b.len() == 0 {
        false
    } else if a[0] != b[0] {
        a[0] < b[0]
    } else {
        seq_less(a.skip(1), b.skip(1))
    }
}

pub proof fn lemma_less_total(a: Seq<char>, b: Seq<char>)
    ensures
        a == b || seq_less(a, b) || seq_less(b, a),
    decreases a.len(),
{
    if a.len() > 0 && b.len() > 0 && a[0] == b[0] {
        lemma_less_total(a.skip(1), b.skip(1));
        if a.skip(1) == b.skip(1) {
            assert(a =~= seq![a[0]] + a.skip(1));
            assert(b =~= seq![b[0]] + b.skip(1));
        }
    }
    if a.len() == 0 && b.len() == 0 {
        assert(a =~= b);
    }
}

pub proof fn lemma_less_transitive(a: Seq<char>, b: Seq<char>, c: Seq<char>)
    requires
        seq_less(a, b),
        seq_less(b, c),
    ensures
        seq_less(a, c),
    decreases a.len(),
{
    if a.len() > 0 && b.len() > 0 && c.len() > 0 && a[0] == b[0] && b[0] == c[0] {
        lemma_less_transitive(a.skip(1), b.skip(1), c.skip(1));
    }
}

/// `str_less(a, b)` compares two strings by code point.
pub fn str_less(a: &String, b: &String) -> (r: bool)
    ensures
        r == seq_less(a@, b@),
{
    let n = a.as_str().unicode_len();
    let m = b.as_str().unicode_len();
    let mut i: usize = 0;
    assert(a@.skip(0) =~= a@);
    assert(b@.skip(0) =~= b@);
    while i < n && i < m
        invariant
            n == a@.len(),
            m == b@.len(),
            i <= n,
            i <= m,
            seq_less(a@, b@) == seq_less(a@.skip(i as int), b@.skip(i as int)),
        decreases n - i,
    {
        let x = a.as_str().get_char(i);
        let y = b.as_str().get_char(i);
        assert(a@.skip(i as int)[0] == x);
        assert(b@.skip(i as int)[0] == y);
        if x != y {
            return x < y;
        }
        assert(a@.skip(i as int).skip(1) =~= a@.skip(i + 1));
        assert(b@.skip(i as int).skip(1) =~= b@.skip(i + 1));
        i = i + 1;
    }
    assert(a@.skip(i as int).len() == n - i);
    assert(b@.skip(i as int).len() == m - i);
    i == n && i < m
}

pub open spec fn views(v: Seq<String>) -> Seq<Seq<char>> {
    v.map_values(|s: String| s@)
}

/// Strictly increasing, hence without repeats.
pub open spec fn strictly_sorted(v: Seq<Seq<char>>) -> bool {
    forall|i: int, j: int| 0 <= i < j < v.len() ==> seq_less(#[trigger] v[i], #[trigger] v[j])
}

/// The platform counts towards a line: it names one, and not national rail.
pub open spec fn on_tfl_line(p: Platform) -> bool {
    p.line@.len() > 0 && p.line@ != "national-rail"@
}

/// Station `s` has a platform on line `line` among `ps`.
pub open spec fn serves(ps: Seq<Platform>, line: Seq<char>, s: Seq<char>) -> bool {
    exists|k: int| 0 <= k < ps.len() && on_tfl_line(#[trigger] ps[k]) && ps[k].line@ == line && ps[k].station_unique_id@ == s
}

/// Some platform among the first `n` counts towards line `line`.
pub open spec fn named_by(ps: Seq<Platform>, n: int, line: Seq<char>) -> bool {
    exists|k: int| 0 <= k < n && k < ps.len() && on_tfl_line(#[trigger] ps[k]) && ps[k].line@ == line
}

proof fn lemma_named_by_grows(ps: Seq<Platform>, n: int, line: Seq<char>)
    requires
        named_by(ps, n, line),
    ensures
        named_by(ps, n + 1, line),
{
    let k = choose|k: int| 0 <= k < n && k < ps.len() && on_tfl_line(#[trigger] ps[k]) && ps[k].line@ == line;
    assert(0 <= k < n + 1 && k < ps.len() && on_tfl_line(ps[k]) && ps[k].line@ == line);
}

fn insert_sorted(v: &mut Vec<String>, s: String)
    requires
        strictly_sorted(views(old(v)@)),
    ensures
        strictly_sorted(views(final(v)@)),
        forall|t: Seq<char>| views(final(v)@).contains(t) <==> (views(old(v)@).contains(t) || t == s@),
{
    let ghost before = views(v@);
    let mut i: usize = 0;
    while i < v.len() && str_less(&v[i], &s)
        invariant
            views(v@) == before,
            strictly_sorted(before),
            i <= v@.len(),
            forall|k: int| 0 <= k < i ==> seq_less(#[trigger] before[k], s@),
        decreases v@.len() - i,
    {
        assert(before[i as int] == v@[i as int]@);
        i = i + 1;
    }
    if i < v.len() && v[i] == s {
        assert(before[i as int] == s@);
        return;
    }
    proof {
        if i < v@.len() {
            assert(before[i as int] == v@[i as int]@);
            lemma_less_total(before[i as int], s@);
            assert(seq_less(s@, before[i as int]));
            assert forall|k: int| i <= k < before.len() implies seq_less(s@, #[trigger] before[k]) by {
                if k > i {
                    lemma_less_transitive(s@, before[i as int], before[k]);
                }
            }
        }
    }
    v.insert(i, s);
    proof {
        let after = views(v@);
        assert(after =~= before.insert(i as int, s@));
        assert forall|t: Seq<char>| after.contains(t) <==> (before.contains(t) || t == s@) by {
            if before.contains(t) {
                let k = choose|k: int| 0 <= k < before.len() && before[k] == t;
                if k < i {
                    assert(after[k] == t);
                } else {
                    assert(after[k + 1] == t);
                }
            }
            if t == s@ {
                assert(after[i as int] == t);
            }
            if after.contains(t) {
                let k = choose|k: int| 0 <= k < after.len() && after[k] == t;
                if k < i {
                    assert(before[k] == t);
                } else if k > i {
                    assert(before[k - 1] == t);
                }
            }
        }
    }
}

fn find_line(out: &Vec<LineStations>, line: &String) -> (r: Option<usize>)
    ensures
        match r {
            Some(j) => j < out@.len() && out@[j as int].line@ == line@,
            None => forall|j: int| 0 <= j < out@.len() ==> (#[trigger] out@[j]).line@ != line@,
        },
{
    let mut j: usize = 0;
    while j < out.len()
        invariant
            j <= out@.len(),
            forall|k: int| 0 <= k < j ==> (#[trigger] out@[k]).line@ != line@,
        decreases out@.len() - j,
    {
        if out[j].line == *line {
            return Some(j);
        }
        j = j + 1;
    }
    None
}

fn is_tfl_line(line: &String) -> (r: bool)
    ensures
        r == (line@.len() > 0 && line@ != "national-rail"@),
{
    let national = "national-rail".to_owned();
    line.as_str().unicode_len() > 0 && *line != national
}

/// Groups the platforms by the line they serve, leaving out national rail and
/// platforms without a line: each line once, in order of first appearance,
/// with the stations it serves in increasing order, each once.
#[verifier::rlimit(40)]
pub fn create_line_stations_map(platforms: &Vec<Platform>) -> (r: Vec<LineStations>)
    ensures
        forall|i: int, j: int| 0 <= i < j < r@.len() ==> (#[trigger] r@[i]).line@ != (#[trigger] r@[j]).line@,
        forall|k: int| 0 <= k < platforms@.len() && on_tfl_line(#[trigger] platforms@[k]) ==> exists|i: int|
            0 <= i < r@.len() && (#[trigger] r@[i]).line@ == platforms@[k].line@,
        forall|i: int| 0 <= i < r@.len() ==> named_by(platforms@, platforms@.len() as int, (#[trigger] r@[i]).line@),
        forall|i: int| 0 <= i < r@.len() ==> strictly_sorted(views((#[trigger] r@[i]).stations@)),
        forall|i: int, s: Seq<char>| 0 <= i < r@.len() ==> (#[trigger] views(r@[i].stations@).contains(s)
            <==> serves(platforms@, r@[i].line@, s)),
{
    let mut out: Vec<LineStations> = Vec::new();
    let mut k: usize = 0;
    while k < platforms.len()
        invariant
            k <= platforms@.len(),
            forall|i: int, j: int| 0 <= i < j < out@.len() ==> (#[trigger] out@[i]).line@ != (#[trigger] out@[j]).line@,
            forall|kk: int| 0 <= kk < k && on_tfl_line(#[trigger] platforms@[kk]) ==> exists|i: int|
                0 <= i < out@.len() && (#[trigger] out@[i]).line@ == platforms@[kk].line@,
            forall|i: int| 0 <= i < out@.len() ==> named_by(platforms@, k as int, (#[trigger] out@[i]).line@),
            forall|i: int| 0 <= i < out@.len() ==> strictly_sorted(views((#[trigger] out@[i]).stations@)),
            forall|i: int, s: Seq<char>| 0 <= i < out@.len() ==> (#[trigger] views(out@[i].stations@).contains(s)
                <==> serves(platforms@.subrange(0, k as int), out@[i].line@, s)),
        decreases platforms@.len() - k,
    {
        let p = &platforms[k];
        let ghost ps = platforms@.subrange(0, k as int);
        let ghost ps1 = platforms@.subrange(0, k + 1);
        let ghost before = out@;
        proof {
            assert forall|line: Seq<char>, s: Seq<char>| serves(ps1, line, s) <==> (serves(ps, line, s) || (
                on_tfl_line(*p) && p.line@ == line && p.station_unique_id@ == s)) by {
                if serves(ps1, line, s) {
                    let kk = choose|kk: int| 0 <= kk < ps1.len() && on_tfl_line(#[trigger] ps1[kk]) && ps1[kk].line@ == line
                        && ps1[kk].station_unique_id@ == s;
                    if kk < k {
                        assert(ps[kk] == ps1[kk]);
                    }
                }
                if serves(ps, line, s) {
                    let kk = choose|kk: int| 0 <= kk < ps.len() && on_tfl_line(#[trigger] ps[kk]) && ps[kk].line@ == line
                        && ps[kk].station_unique_id@ == s;
                    assert(ps1[kk] == ps[kk]);
                }
                if on_tfl_line(*p) && p.line@ == line && p.station_unique_id@ == s {
                    assert(ps1[k as int] == *p);
                }
            }
        }
        if is_tfl_line(&p.line) {
            let j = match find_line(&out, &p.line) {
                Some(j) => j,
                None => {
                    let entry = LineStations { line: p.line.clone(), stations: Vec::new() };
                    out.push(entry);
                    proof {
                        assert(views(out@[out@.len() - 1].stations@) =~= Seq::<Seq<char>>::empty());
                    }
                    out.len() - 1
                },
            };
            let ghost mid = out@;
            let mut entry = out.remove(j);
            insert_sorted(&mut entry.stations, p.station_unique_id.clone());
            out.insert(j, entry);
            proof {
                assert forall|i: int| 0 <= i < out@.len() && i != j implies #[trigger] out@[i] == mid[i] by {
                }
                assert forall|i: int, s: Seq<char>| 0 <= i < out@.len() implies (#[trigger] views(out@[i].stations@).contains(s)
                    <==> serves(ps1, out@[i].line@, s)) by {
                    if i != j && i < before.len() {
                        assert(out@[i] == before[i]);
                    }
                    if i != j && i >= before.len() {
                        assert(false);
                    }
                    if i == j && j >= before.len() {
                        assert(!serves(ps, out@[i].line@, s)) by {
                            if serves(ps, out@[i].line@, s) {
                                let kk = choose|kk: int| 0 <= kk < ps.len() && on_tfl_line(#[trigger] ps[kk])
                                    && ps[kk].line@ == out@[i].line@ && ps[kk].station_unique_id@ == s;
                                assert(platforms@[kk] == ps[kk]);
                            }
                        }
                    }
                }
                assert forall|i: int| 0 <= i < out@.len() implies named_by(platforms@, k + 1, (#[trigger] out@[i]).line@) by {
                    if i < before.len() {
                        if i != j {
                            assert(out@[i] == before[i]);
                        } else {
                            assert(out@[i].line@ == before[i].line@);
                        }
                        lemma_named_by_grows(platforms@, k as int, before[i].line@);
                    } else {
                        assert(out@[i].line@ == platforms@[k as int].line@);
                    }
                }
                assert forall|kk: int| 0 <= kk < k + 1 && on_tfl_line(#[trigger] platforms@[kk]) implies exists|i: int|
                    0 <= i < out@.len() && (#[trigger] out@[i]).line@ == platforms@[kk].line@ by {
                    if kk < k {
                        let i = choose|i: int| 0 <= i < before.len() && (#[trigger] before[i]).line@ == platforms@[kk].line@;
                        assert(out@[i].line@ == before[i].line@);
                    } else {
                        assert(out@[j as int].line@ == platforms@[kk].line@);
                    }
                }
            }
        } else {
            proof {
                assert forall|i: int| 0 <= i < out@.len() implies named_by(platforms@, k + 1, (#[trigger] out@[i]).line@) by {
                    lemma_named_by_grows(platforms@, k as int, out@[i].line@);
                }
                assert forall|kk: int| 0 <= kk < k + 1 && on_tfl_line(#[trigger] platforms@[kk]) implies exists|i: int|
                    0 <= i < out@.len() && (#[trigger] out@[i]).line@ == platforms@[kk].line@ by {
                    if kk == k {
                        assert(!on_tfl_line(platforms@[kk]));
                    }
                }
            }
        }
        k = k + 1;
    }
    proof {
        assert(platforms@.subrange(0, platforms@.len() as int) =~= platforms@);
    }
    out
}

} // verus!
