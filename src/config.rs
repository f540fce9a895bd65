//! The configuration of one run: what to compile, against which library,
//! and what to emit.
use vstd::prelude::*;
use crate::ast::is_word;

verus! {

/// A kind of output the compiler can emit.
#[derive(Clone, Copy, Debug, PartialEq, Eq, Structural)]
pub enum CrateType {
    Executable,
    Dylib,
    Rlib,
    Staticlib,
}

/// Building against a library.
#[derive(Debug)]
pub struct Config {
    /// The source file to compile.
    pub input_file: String,
    /// The library linked in place of `std`.
    pub chamber_name: String,
    /// What to emit; empty lets the compiler pick.
    pub crate_types: Vec<CrateType>,
    /// Extra directories searched for libraries.
    pub search_paths: Vec<String>,
    pub out_dir: Option<String>,
    pub out_file: Option<String>,
    pub sysroot: Option<String>,
}

/// What `lib` stands for.
pub open spec fn lib_output() -> CrateType {
    CrateType::Rlib
}

/// The crate type emitted for `lib`.
pub fn default_lib_output() -> (r: CrateType)
    ensures
        r == lib_output(),
{
    CrateType::Rlib
}

/// The parts of `s` between commas, in order; a string without commas is
/// one part, and an empty string one empty part.
pub open spec fn split_commas(s: Seq<char>) -> Seq<Seq<char>>
    decreases s.len(),
{
    if s.len() == 0 {
        seq![Seq::empty()]
    } else {
        let r = split_commas(s.drop_last());
        if s.last() == ',' {
            r.push(Seq::empty())
        } else {
            r.update(r.len() - 1, r.last().push(s.last()))
        }
    }
}

/// The parts of every string of the list, in order.
pub open spec fn parts_of(list: Seq<Seq<char>>) -> Seq<Seq<char>>
    decreases list.len(),
{
    if list.len() == 0 {
        Seq::empty()
    } else {
        parts_of(list.drop_last()) + split_commas(list.last())
    }
}

pub open spec fn crate_type_of(p: Seq<char>) -> Option<CrateType> {
    if p == "lib"@ {
        Some(lib_output())
    } else if p == "rlib"@ {
        Some(CrateType::Rlib)
    } else if p == "staticlib"@ {
        Some(CrateType::Staticlib)
    } else if p == "dylib"@ {
        Some(CrateType::Dylib)
    } else if p == "bin"@ {
        Some(CrateType::Executable)
    } else {
        None
    }
}

/// The crate types the parts name, or the first part that names none.
pub open spec fn parse_parts(ps: Seq<Seq<char>>) -> Result<Seq<CrateType>, Seq<char>>
    decreases ps.len(),
{
    if ps.len() == 0 {
        Ok(Seq::empty())
    } else {
        match parse_parts(ps.drop_last()) {
            Err(e) => Err(e),
            Ok(ts) => match crate_type_of(ps.last()) {
                Some(t) => Ok(ts.push(t)),
                None => Err(ps.last()),
            },
        }
    }
}

pub open spec fn unknown_message(p: Seq<char>) -> Seq<char> {
    "unknown crate type: `"@ + p + "`"@
}

pub open spec fn strings_view(v: Seq<String>) -> Seq<Seq<char>> {
    v.map_values(|s: String| s@)
}

proof fn lemma_parse_err_stays(a: Seq<Seq<char>>, b: Seq<Seq<char>>)
    requires
        parse_parts(a) is Err,
    ensures
        parse_parts(a + b) == parse_parts(a),
    decreases b.len(),
{
    if b.len() == 0 {
        assert(a + b =~= a);
    } else {
        lemma_parse_err_stays(a, b.drop_last());
        assert((a + b).drop_last() =~= a + b.drop_last());
    }
}

/// Splits `s` at its commas.
fn split_at_commas(s: &String) -> (r: Vec<String>)
    ensures
        strings_view(r@) == split_commas(s@),
{
    let a = s.as_str();
    let n = a.unicode_len();
    let mut parts: Vec<String> = Vec::new();
    let mut start: usize = 0;
    let mut i: usize = 0;
    assert(a@.take(0) =~= Seq::<char>::empty());
    assert(strings_view(parts@).push(a@.subrange(0, 0)) =~= seq![Seq::<char>::empty()]);
    while i < n
        invariant
            a@ == s@,
            n == a@.len(),
            start <= i <= n,
            split_commas(a@.take(i as int)) == strings_view(parts@).push(
                a@.subrange(start as int, i as int),
            ),
        decreases n - i,
    {
        let c = a.get_char(i);
        let ghost prev = strings_view(parts@);
        proof {
            assert(a@.take(i + 1).drop_last() =~= a@.take(i as int));
            assert(a@.take(i + 1).last() == c);
        }
        if c == ',' {
            let ghost old_start = start;
            let part = String::from_str(a.substring_char(start, i));
            parts.push(part);
            start = i + 1;
            assert(strings_view(parts@) =~= prev.push(a@.subrange(old_start as int, i as int)));
            assert(a@.subrange(start as int, i + 1) =~= Seq::<char>::empty());
        } else {
            assert(a@.subrange(start as int, i + 1) =~= a@.subrange(start as int, i as int).push(c));
            assert(strings_view(parts@).push(a@.subrange(start as int, i + 1)) =~= prev.push(
                a@.subrange(start as int, i as int),
            ).update(prev.len() as int, a@.subrange(start as int, i as int).push(c)));
        }
        i = i + 1;
    }
    let last = String::from_str(a.substring_char(start, n));
    parts.push(last);
    assert(a@.take(n as int) =~= a@);
    assert(strings_view(parts@) =~= split_commas(s@));
    parts
}

fn crate_type_from(p: &String) -> (r: Option<CrateType>)
    ensures
        r == crate_type_of(p@),
{
    if is_word(p, "lib") {
        Some(default_lib_output())
    } else if is_word(p, "rlib") {
        Some(CrateType::Rlib)
    } else if is_word(p, "staticlib") {
        Some(CrateType::Staticlib)
    } else if is_word(p, "dylib") {
        Some(CrateType::Dylib)
    } else if is_word(p, "bin") {
        Some(CrateType::Executable)
    } else {
        None
    }
}

/// Reads the crate types named in a list of comma-separated strings, as
/// given to `--crate-type`. A part that names no crate type is an error,
/// reported for the first such part.
pub fn parse_crate_types_from_list(crate_types_list_list: Vec<String>) -> (r: Result<
    Vec<CrateType>,
    String,
>)
    ensures
        match parse_parts(parts_of(strings_view(crate_types_list_list@))) {
            Ok(ts) => r is Ok && r->Ok_0@ == ts,
            Err(p) => r is Err && r->Err_0@ == unknown_message(p),
        },
{
    let ghost list = strings_view(crate_types_list_list@);
    let mut crate_types: Vec<CrateType> = Vec::new();
    let mut i: usize = 0;
    assert(list.take(0) =~= Seq::<Seq<char>>::empty());
    while i < crate_types_list_list.len()
        invariant
            list == strings_view(crate_types_list_list@),
            list.len() == crate_types_list_list@.len(),
            i <= list.len(),
            parse_parts(parts_of(list.take(i as int))) == Ok::<Seq<CrateType>, Seq<char>>(
                crate_types@,
            ),
        decreases list.len() - i,
    {
        let parts = split_at_commas(&crate_types_list_list[i]);
        let ghost done = parts_of(list.take(i as int));
        let ghost pv = strings_view(parts@);
        proof {
            assert(list.take(i + 1).drop_last() =~= list.take(i as int));
            assert(list.take(i + 1).last() == list[i as int]);
            assert(parts_of(list.take(i + 1)) == done + pv);
        }
        let mut j: usize = 0;
        assert(done + pv.take(0) =~= done);
        while j < parts.len()
            invariant
                list == strings_view(crate_types_list_list@),
                list.len() == crate_types_list_list@.len(),
                i < list.len(),
                done == parts_of(list.take(i as int)),
                parts_of(list.take(i + 1)) == done + pv,
                pv == strings_view(parts@),
                pv.len() == parts@.len(),
                j <= pv.len(),
                parse_parts(done + pv.take(j as int)) == Ok::<Seq<CrateType>, Seq<char>>(
                    crate_types@,
                ),
            decreases pv.len() - j,
        {
            let part = &parts[j];
            proof {
                assert((done + pv.take(j + 1)).drop_last() =~= done + pv.take(j as int));
                assert((done + pv.take(j + 1)).last() == part@);
            }
            match crate_type_from(part) {
                Some(t) => {
                    crate_types.push(t);
                },
                None => {
                    proof {
                        let whole = list;
                        let upto = done + pv.take(j + 1);
                        let rest_here = pv.subrange(j + 1, pv.len() as int);
                        assert(upto + rest_here =~= done + pv);
                        lemma_parse_err_stays(upto, rest_here);
                        lemma_parts_prefix(whole, i + 1);
                        lemma_parse_err_stays(
                            parts_of(list.take(i + 1)),
                            parts_of(whole).subrange(
                                parts_of(list.take(i + 1)).len() as int,
                                parts_of(whole).len() as int,
                            ),
                        );
                    }
                    let msg = String::from_str("unknown crate type: `").concat(part.as_str()).concat(
                        "`",
                    );
                    return Err(msg);
                },
            }
            j = j + 1;
        }
        assert(pv.take(j as int) =~= pv);
        i = i + 1;
    }
    assert(list.take(i as int) =~= list);
    Ok(crate_types)
}

/// The parts of a prefix of the list are a prefix of the parts of the list.
proof fn lemma_parts_prefix(list: Seq<Seq<char>>, k: int)
    requires
        0 <= k <= list.len(),
    ensures
        parts_of(list.take(k)).len() <= parts_of(list).len(),
        parts_of(list.take(k)) + parts_of(list).subrange(
            parts_of(list.take(k)).len() as int,
            parts_of(list).len() as int,
        ) == parts_of(list),
    decreases list.len() - k,
{
    if k == list.len() {
        assert(list.take(k) =~= list);
        assert(parts_of(list) + parts_of(list).subrange(
            parts_of(list).len() as int,
            parts_of(list).len() as int,
        ) =~= parts_of(list));
    } else {
        lemma_parts_prefix(list, k + 1);
        assert(list.take(k + 1).drop_last() =~= list.take(k));
        let a = parts_of(list.take(k));
        let b = parts_of(list.take(k + 1));
        let all = parts_of(list);
        assert(b == a + split_commas(list.take(k + 1).last()));
        assert(a + all.subrange(a.len() as int, all.len() as int) =~= all);
    }
}

} // verus!
