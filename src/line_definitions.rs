use vstd::prelude::*;
use vstd::string::StringExecFns;

verus! {

/// The family a line belongs to.
#[derive(Clone, Copy, Debug, PartialEq, Eq, Structural)]
pub enum LineType {
    Underground,
    Overground,
    DLR,
    ElizabethLine,
    Tram,
    CableCar,
    Thameslink,
}

/// Identifier, display name, colour and family of a line.
#[derive(Clone, Copy, Debug)]
pub struct LineInfo {
    pub id: &'static str,
    pub name: &'static str,
    pub color: &'static str,
    pub line_type: LineType,
}

pub open spec fn info_view(l: LineInfo) -> (Seq<char>, Seq<char>, Seq<char>, LineType) {
    (l.id@, l.name@, l.color@, l.line_type)
}

/// The known lines, in order.
pub open spec fn line_table() -> Seq<(Seq<char>, Seq<char>, Seq<char>, LineType)> {
    seq![
        ("bakerloo"@, "Bakerloo"@, "#B36305"@, LineType::Underground),
        ("central"@, "Central"@, "#E32017"@, LineType::Underground),
        ("circle"@, "Circle"@, "#FFD300"@, LineType::Underground),
        ("district"@, "District"@, "#00782A"@, LineType::Underground),
        ("hammersmith-city"@, "Hammersmith & City"@, "#F3A9BB"@, LineType::Underground),
        ("jubilee"@, "Jubilee"@, "#A0A5A9"@, LineType::Underground),
        ("metropolitan"@, "Metropolitan"@, "#9B0056"@, LineType::Underground),
        ("northern"@, "Northern"@, "#000000"@, LineType::Underground),
        ("piccadilly"@, "Piccadilly"@, "#003688"@, LineType::Underground),
        ("victoria"@, "Victoria"@, "#0098D4"@, LineType::Underground),
        ("waterloo-city"@, "Waterloo & City"@, "#95CDBA"@, LineType::Underground),
        ("dlr"@, "DLR"@, "#00A4A7"@, LineType::DLR),
        ("elizabeth"@, "Elizabeth Line"@, "#6950A1"@, LineType::ElizabethLine),
        ("tram"@, "Trams"@, "#84B817"@, LineType::Tram),
        ("cable-car"@, "Cable Car"@, "#E21836"@, LineType::CableCar),
        ("thameslink"@, "Thameslink"@, "#C1007C"@, LineType::Thameslink),
        ("liberty"@, "Liberty Line"@, "#4C6366"@, LineType::Overground),
        ("lioness"@, "Lioness Line"@, "#FFA32B"@, LineType::Overground),
        ("mildmay"@, "Mildmay Line"@, "#088ECC"@, LineType::Overground),
        ("suffragette"@, "Suffragette Line"@, "#59C274"@, LineType::Overground),
        ("weaver"@, "Weaver Line"@, "#B43983"@, LineType::Overground),
        ("windrush"@, "Windrush Line"@, "#FF2E24"@, LineType::Overground),
    ]
}

/// The table of known lines.
pub fn line_infos() -> (r: Vec<LineInfo>)
    ensures
        r@.map_values(|l: LineInfo| info_view(l)) == line_table(),
{
    let r = vec![
        LineInfo { id: "bakerloo", name: "Bakerloo", color: "#B36305", line_type: LineType::Underground },
        LineInfo { id: "central", name: "Central", color: "#E32017", line_type: LineType::Underground },
        LineInfo { id: "circle", name: "Circle", color: "#FFD300", line_type: LineType::Underground },
        LineInfo { id: "district", name: "District", color: "#00782A", line_type: LineType::Underground },
        LineInfo { id: "hammersmith-city", name: "Hammersmith & City", color: "#F3A9BB", line_type: LineType::Underground },
        LineInfo { id: "jubilee", name: "Jubilee", color: "#A0A5A9", line_type: LineType::Underground },
        LineInfo { id: "metropolitan", name: "Metropolitan", color: "#9B0056", line_type: LineType::Underground },
        LineInfo { id: "northern", name: "Northern", color: "#000000", line_type: LineType::Underground },
        LineInfo { id: "piccadilly", name: "Piccadilly", color: "#003688", line_type: LineType::Underground },
        LineInfo { id: "victoria", name: "Victoria", color: "#0098D4", line_type: LineType::Underground },
        LineInfo { id: "waterloo-city", name: "Waterloo & City", color: "#95CDBA", line_type: LineType::Underground },
        LineInfo { id: "dlr", name: "DLR", color: "#00A4A7", line_type: LineType::DLR },
        LineInfo { id: "elizabeth", name: "Elizabeth Line", color: "#6950A1", line_type: LineType::ElizabethLine },
        LineInfo { id: "tram", name: "Trams", color: "#84B817", line_type: LineType::Tram },
        LineInfo { id: "cable-car", name: "Cable Car", color: "#E21836", line_type: LineType::CableCar },
        LineInfo { id: "thameslink", name: "Thameslink", color: "#C1007C", line_type: LineType::Thameslink },
        LineInfo { id: "liberty", name: "Liberty Line", color: "#4C6366", line_type: LineType::Overground },
        LineInfo { id: "lioness", name: "Lioness Line", color: "#FFA32B", line_type: LineType::Overground },
        LineInfo { id: "mildmay", name: "Mildmay Line", color: "#088ECC", line_type: LineType::Overground },
        LineInfo { id: "suffragette", name: "Suffragette Line", color: "#59C274", line_type: LineType::Overground },
        LineInfo { id: "weaver", name: "Weaver Line", color: "#B43983", line_type: LineType::Overground },
        LineInfo { id: "windrush", name: "Windrush Line", color: "#FF2E24", line_type: LineType::Overground },
    ];
    assert(r@.map_values(|l: LineInfo| info_view(l)) =~= line_table());
    r
}

/// Colour of the first line in `table[k..]` with identifier `id`, or the
/// neutral grey when there is none.
pub open spec fn color_from(table: Seq<(Seq<char>, Seq<char>, Seq<char>, LineType)>, id: Seq<char>, k: int) -> Seq<char>
    decreases table.len() - k,
{
    if k < 0 || k >= table.len() {
        "#777777"@
    } else if table[k].0 == id {
        table[k].2
    } else {
        color_from(table, id, k + 1)
    }
}

/// The colour of a line by its identifier; grey for an unknown line.
pub fn get_line_color(line_id: &str) -> (c: String)
    ensures
        c@ == color_from(line_table(), line_id@, 0),
{
    let infos = line_infos();
    let target = line_id.to_owned();
    let ghost table = line_table();
    let mut k: usize = 0;
    while k < infos.len()
        invariant
            infos@.map_values(|l: LineInfo| info_view(l)) == table,
            table == line_table(),
            target@ == line_id@,
            k <= infos@.len(),
            color_from(table, line_id@, 0) == color_from(table, line_id@, k as int),
        decreases infos@.len() - k,
    {
        let info = infos[k];
        assert(info_view(info) == table[k as int]);
        if info.id.to_owned() == target {
            return info.color.to_owned();
        }
        k = k + 1;
    }
    "#777777".to_owned()
}

/// The groups of lines that the key panel lists.
#[derive(Clone, Copy, Debug, PartialEq, Eq, Structural)]
pub enum LineGroup {
    Underground,
    Overground,
    /// Neither Underground nor Overground.
    OtherRail,
}

pub open spec fn in_group(g: LineGroup, t: LineType) -> bool {
    match g {
        LineGroup::Underground => t == LineType::Underground,
        LineGroup::Overground => t == LineType::Overground,
        LineGroup::OtherRail => t != LineType::Underground && t != LineType::Overground,
    }
}

/// The entries of `table[..n]` whose family belongs to group `g`, in order.
pub open spec fn group_upto(table: Seq<(Seq<char>, Seq<char>, Seq<char>, LineType)>, g: LineGroup, n: nat) -> Seq<(Seq<char>, Seq<char>, Seq<char>, LineType)>
    decreases n,
{
    if n == 0 {
        Seq::empty()
    } else {
        let prev = group_upto(table, g, (n - 1) as nat);
        if in_group(g, table[n - 1].3) {
            prev.push(table[n - 1])
        } else {
            prev
        }
    }
}

fn group_matches(g: LineGroup, t: LineType) -> (r: bool)
    ensures
        r == in_group(g, t),
{
    match g {
        LineGroup::Underground => t == LineType::Underground,
        LineGroup::Overground => t == LineType::Overground,
        LineGroup::OtherRail => t != LineType::Underground && t != LineType::Overground,
    }
}

/// The known lines of group `g`, in table order.
pub fn lines_in_group(g: LineGroup) -> (r: Vec<LineInfo>)
    ensures
        r@.map_values(|l: LineInfo| info_view(l)) == group_upto(line_table(), g, line_table().len()),
{
    let infos = line_infos();
    let ghost table = line_table();
    let mut out: Vec<LineInfo> = Vec::new();
    let mut k: usize = 0;
    while k < infos.len()
        invariant
            infos@.map_values(|l: LineInfo| info_view(l)) == table,
            table == line_table(),
            k <= infos@.len(),
            out@.map_values(|l: LineInfo| info_view(l)) == group_upto(table, g, k as nat),
        decreases infos@.len() - k,
    {
        let info = infos[k];
        assert(info_view(info) == table[k as int]);
        if group_matches(g, info.line_type) {
            out.push(info);
        }
        k = k + 1;
        proof {
            assert(out@.map_values(|l: LineInfo| info_view(l)) =~= group_upto(table, g, k as nat));
        }
    }
    out
}

pub fn get_underground_lines() -> (r: Vec<LineInfo>)
    ensures
        r@.map_values(|l: LineInfo| info_view(l)) == group_upto(line_table(), LineGroup::Underground, line_table().len()),
{
    lines_in_group(LineGroup::Underground)
}

pub fn get_overground_lines() -> (r: Vec<LineInfo>)
    ensures
        r@.map_values(|l: LineInfo| info_view(l)) == group_upto(line_table(), LineGroup::Overground, line_table().len()),
{
    lines_in_group(LineGroup::Overground)
}

/// Lines that are neither Underground nor Overground.
pub fn get_other_rail_lines() -> (r: Vec<LineInfo>)
    ensures
        r@.map_values(|l: LineInfo| info_view(l)) == group_upto(line_table(), LineGroup::OtherRail, line_table().len()),
{
    lines_in_group(LineGroup::OtherRail)
}

pub open spec fn css_variable(e: (Seq<char>, Seq<char>, Seq<char>, LineType)) -> Seq<char> {
    "  --"@ + e.0 + ": "@ + e.2 + ";\n"@
}

pub open spec fn css_class(e: (Seq<char>, Seq<char>, Seq<char>, LineType)) -> Seq<char> {
    ".color-line."@ + e.0 + " { background-color: var(--"@ + e.0 + "); }\n"@
}

pub open spec fn css_variables(table: Seq<(Seq<char>, Seq<char>, Seq<char>, LineType)>, n: nat) -> Seq<char>
    decreases n,
{
    if n == 0 {
        Seq::empty()
    } else {
        css_variables(table, (n - 1) as nat) + css_variable(table[n - 1])
    }
}

pub open spec fn css_classes(table: Seq<(Seq<char>, Seq<char>, Seq<char>, LineType)>, n: nat) -> Seq<char>
    decreases n,
{
    if n == 0 {
        Seq::empty()
    } else {
        css_classes(table, (n - 1) as nat) + css_class(table[n - 1])
    }
}

/// The style sheet of the line colours: one custom property per line under
/// `:root`, then one `.color-line` class per line that uses it.
pub open spec fn line_css(table: Seq<(Seq<char>, Seq<char>, Seq<char>, LineType)>) -> Seq<char> {
    ":root {\n"@ + css_variables(table, table.len()) + "}\n\n"@ + css_classes(table, table.len())
}

pub fn generate_line_css() -> (css: String)
    ensures
        css@ == line_css(line_table()),
{
    let infos = line_infos();
    let ghost table = line_table();
    let mut css = String::new();
    css.append(":root {\n");
    let mut k: usize = 0;
    while k < infos.len()
        invariant
            infos@.map_values(|l: LineInfo| info_view(l)) == table,
            table == line_table(),
            k <= infos@.len(),
            css@ == ":root {\n"@ + css_variables(table, k as nat),
        decreases infos@.len() - k,
    {
        let info = infos[k];
        assert(info_view(info) == table[k as int]);
        css.append("  --");
        css.append(info.id);
        css.append(": ");
        css.append(info.color);
        css.append(";\n");
        k = k + 1;
        proof {
            assert(css@ =~= ":root {\n"@ + css_variables(table, k as nat));
        }
    }
    css.append("}\n\n");
    let ghost head = css@;
    let mut k: usize = 0;
    while k < infos.len()
        invariant
            infos@.map_values(|l: LineInfo| info_view(l)) == table,
            table == line_table(),
            k <= infos@.len(),
            head == ":root {\n"@ + css_variables(table, table.len()) + "}\n\n"@,
            css@ == head + css_classes(table, k as nat),
        decreases infos@.len() - k,
    {
        let info = infos[k];
        assert(info_view(info) == table[k as int]);
        css.append(".color-line.");
        css.append(info.id);
        css.append(" { background-color: var(--");
        css.append(info.id);
        css.append("); }\n");
        k = k + 1;
        proof {
            assert(css@ =~= head + css_classes(table, k as nat));
        }
    }
    css
}

} // verus!
