//! The topics that a crawl walks, in the order in which it walks them.

use vstd::prelude::*;
use vstd::string::StringExecFns;

verus! {

/// What the path of every local news area begins with.
pub const LOCAL_PREFIX: &'static str = "nyheter/lokalt/";

/// The sections that are crawled as they stand.
pub open spec fn sections() -> Seq<Seq<char>> {
    seq![
        "nyheter/ekonomi"@,
        "nyheter/granskning"@,
        "nyheter/inrikes"@,
        "nyheter/svtforum"@,
        "nyheter/nyhetstecken"@,
        "nyheter/vetenskap"@,
        "nyheter/konsument"@,
        "nyheter/utrikes"@,
        "sport"@,
        "vader"@,
        "kultur"@,
    ]
}

/// The areas of the local news.
pub open spec fn local_areas() -> Seq<Seq<char>> {
    seq![
        "blekinge"@,
        "dalarna"@,
        "gavleborg"@,
        "halland"@,
        "helsingborg"@,
        "jamtland"@,
        "jonkoping"@,
        "norrbotten"@,
        "skane"@,
        "smaland"@,
        "stockholm"@,
        "sodertalje"@,
        "sormland"@,
        "uppsala"@,
        "varmland"@,
        "vast"@,
        "vasterbotten"@,
        "vasternorrland"@,
        "vastmanland"@,
        "orebro"@,
        "ost"@,
    ]
}

/// The path of the local news area `area`.
pub open spec fn local_path(area: Seq<char>) -> Seq<char> {
    LOCAL_PREFIX@ + area
}

/// Every topic path: the sections, then the local news areas.
pub open spec fn topic_paths() -> Seq<Seq<char>> {
    sections() + Seq::new(local_areas().len(), |i: int| local_path(local_areas()[i]))
}

fn section_names() -> (r: Vec<&'static str>)
    ensures
        r.deep_view() == sections(),
{
    let mut r: Vec<&'static str> = Vec::new();
    r.push("nyheter/ekonomi");
    r.push("nyheter/granskning");
    r.push("nyheter/inrikes");
    r.push("nyheter/svtforum");
    r.push("nyheter/nyhetstecken");
    r.push("nyheter/vetenskap");
    r.push("nyheter/konsument");
    r.push("nyheter/utrikes");
    r.push("sport");
    r.push("vader");
    r.push("kultur");
    assert(r.deep_view() =~= sections());
    r
}

fn area_names() -> (r: Vec<&'static str>)
    ensures
        r.deep_view() == local_areas(),
{
    let mut r: Vec<&'static str> = Vec::new();
    r.push("blekinge");
    r.push("dalarna");
    r.push("gavleborg");
    r.push("halland");
    r.push("helsingborg");
    r.push("jamtland");
    r.push("jonkoping");
    r.push("norrbotten");
    r.push("skane");
    r.push("smaland");
    r.push("stockholm");
    r.push("sodertalje");
    r.push("sormland");
    r.push("uppsala");
    r.push("varmland");
    r.push("vast");
    r.push("vasterbotten");
    r.push("vasternorrland");
    r.push("vastmanland");
    r.push("orebro");
    r.push("ost");
    assert(r.deep_view() =~= local_areas());
    r
}

/// The topics of a crawl.
pub fn topics() -> (r: Vec<String>)
    ensures
        r.deep_view() == topic_paths(),
{
    let names = section_names();
    let areas = area_names();
    let mut r: Vec<String> = Vec::new();
    let mut i: usize = 0;
    while i < names.len()
        invariant
            i <= names.len(),
            names.deep_view() == sections(),
            r.deep_view() == sections().take(i as int),
        decreases names.len() - i,
    {
        let ghost before = r.deep_view();
        r.push(String::from_str(names[i]));
        assert(names.deep_view()[i as int] == names[i as int]@);
        assert(r.deep_view() =~= before.push(sections()[i as int]));
        assert(before.push(sections()[i as int]) =~= sections().take(i + 1));
        i += 1;
    }
    assert(sections().take(names.len() as int) =~= sections());
    let mut k: usize = 0;
    while k < areas.len()
        invariant
            k <= areas.len(),
            areas.deep_view() == local_areas(),
            r.deep_view() == sections() + Seq::new(k as nat, |i: int| local_path(local_areas()[i])),
        decreases areas.len() - k,
    {
        let ghost before = r.deep_view();
        let mut path = String::from_str(LOCAL_PREFIX);
        path.append(areas[k]);
        assert(areas.deep_view()[k as int] == areas[k as int]@);
        assert(path@ == local_path(local_areas()[k as int]));
        r.push(path);
        assert(r.deep_view() =~= before.push(local_path(local_areas()[k as int])));
        assert(before.push(local_path(local_areas()[k as int])) =~= sections() + Seq::new(
            (k + 1) as nat,
            |i: int| local_path(local_areas()[i]),
        ));
        k += 1;
    }
    r
}

} // verus!
