//! The SurrealQL text of the deep-children queries: which statement is sent
//! for which arguments. The statements are sent, and their answers read, by
//! the caller.

use vstd::prelude::*;
use vstd::string::StrSliceExecFns;

verus! {

/// `parts` joined with `sep` between neighbours.
pub open spec fn joined(parts: Seq<Seq<char>>, sep: Seq<char>) -> Seq<char>
    decreases parts.len(),
{
    if parts.len() == 0 {
        Seq::empty()
    } else if parts.len() == 1 {
        parts[0]
    } else {
        joined(parts.drop_last(), sep) + sep + parts.last()
    }
}

/// The views of a list of strings.
pub open spec fn views(parts: Seq<String>) -> Seq<Seq<char>> {
    Seq::new(parts.len(), |i: int| parts[i]@)
}

/// Joins record keys with commas.
pub fn join_keys(keys: &[String]) -> (r: String)
    ensures
        r@ == joined(views(keys@), ","@),
{
    let mut out = String::new();
    let n = keys.len();
    let mut i: usize = 0;
    while i < n
        invariant
            n == keys@.len(),
            i <= n,
            out@ == joined(views(keys@.take(i as int)), ","@),
        decreases n - i,
    {
        proof {
            assert(views(keys@.take(i + 1)).drop_last() =~= views(keys@.take(i as int)));
            assert(views(keys@.take(i + 1)).last() == keys@[i as int]@);
        }
        if i > 0 {
            out.append(",");
        }
        out.append(keys[i].as_str());
        i = i + 1;
        proof {
            if i == 1 {
                assert(out@ =~= joined(views(keys@.take(i as int)), ","@));
            }
        }
    }
    assert(keys@.take(n as int) =~= keys@);
    out
}

/// `s` between single quotes.
pub open spec fn quoted(s: Seq<char>) -> Seq<char> {
    "'"@ + s + "'"@
}

/// The quoted forms of a list of nouns.
pub open spec fn quoted_all(parts: Seq<&str>) -> Seq<Seq<char>> {
    Seq::new(parts.len(), |i: int| quoted(parts[i]@))
}

/// A list of nouns as SurrealQL string literals, separated by commas.
pub fn quoted_list(nouns: &[&str]) -> (r: String)
    ensures
        r@ == joined(quoted_all(nouns@), ","@),
{
    let mut out = String::new();
    let n = nouns.len();
    let mut i: usize = 0;
    while i < n
        invariant
            n == nouns@.len(),
            i <= n,
            out@ == joined(quoted_all(nouns@.take(i as int)), ","@),
        decreases n - i,
    {
        proof {
            assert(quoted_all(nouns@.take(i + 1)).drop_last() =~= quoted_all(nouns@.take(i as int)));
            assert(quoted_all(nouns@.take(i + 1)).last() == quoted(nouns@[i as int]@));
        }
        if i > 0 {
            out.append(",");
        }
        out.append("'");
        out.append(nouns[i]);
        out.append("'");
        i = i + 1;
        proof {
            if i == 1 {
                assert(out@ =~= joined(quoted_all(nouns@.take(i as int)), ","@));
            } else {
                assert(out@ =~= joined(quoted_all(nouns@.take(i as int)), ","@));
            }
        }
    }
    assert(nouns@.take(n as int) =~= nouns@);
    out
}

/// The condition that an element has not been generated yet.
pub open spec fn ungenerated_clause() -> Seq<char> {
    "array::len(->inst_relate) = 0 and array::len(->tubi_relate) = 0"@
}

/// The statement that keeps, of the given records, those with a noun in the
/// list (all of them when the noun list is empty).
pub open spec fn filter_children_text(pe_keys: Seq<char>, nouns_str: Seq<char>, nouns_empty: bool) -> Seq<char> {
    if nouns_empty {
        "select value id from ["@ + pe_keys + "]"@
    } else {
        "select value id from ["@ + pe_keys + "] where noun in ["@ + nouns_str + "]"@
    }
}

/// The statement of `query_filter_deep_children` over the records of the
/// deep children.
pub fn filter_children_sql(pe_keys: &str, nouns_str: &str, nouns_empty: bool) -> (r: String)
    ensures
        r@ == filter_children_text(pe_keys@, nouns_str@, nouns_empty),
{
    let mut s = String::from_str("select value id from [");
    s.append(pe_keys);
    if nouns_empty {
        s.append("]");
    } else {
        s.append("] where noun in [");
        s.append(nouns_str);
        s.append("]");
    }
    s
}

/// The head of the deep-children statements: eleven owner hops below the root.
pub const HEAD_DEEP: &'static str = "\n            let $a = array::flatten( object::values( select\n                  [id] as p0, <-pe_owner<-(? as p1)<-pe_owner<-(? as p2)<-pe_owner<-(? as p3)\n                  <-pe_owner<-(? as p4)<-pe_owner<-(? as p5)<-pe_owner<-(? as p6)<-pe_owner<-(? as p7)\n                  <-pe_owner<-(? as p8)<-pe_owner<-(? as p9)<-pe_owner<-(? as p10)<-pe_owner<-(? as p11)\n                   from only ";

/// What follows the root record key: select the refnos of all the hops.
pub const TAIL_DEEP: &'static str = " ) );\n\n            select value refno from $a";

/// The deep-children statement of a versioned query: the children of any
/// noun in the list (all of them when the list is empty), and with `filter`
/// only those that have not been generated yet.
pub open spec fn versioned_children_text(
    pe_key: Seq<char>,
    nouns_str: Seq<char>,
    has_nouns: bool,
    filter: bool,
) -> Seq<char> {
    HEAD_DEEP@ + pe_key + TAIL_DEEP@ + (if has_nouns {
        " where "@ + " noun in ["@ + nouns_str + "]"@
    } else {
        Seq::empty()
    }) + (if filter {
        (if has_nouns {
            " and "@
        } else {
            " where "@
        }) + ungenerated_clause()
    } else {
        Seq::empty()
    })
}

/// The statement of `query_versioned_deep_children_filter_inst`.
pub fn versioned_children_sql(pe_key: &str, nouns_str: &str, has_nouns: bool, filter: bool) -> (r: String)
    ensures
        r@ == versioned_children_text(pe_key@, nouns_str@, has_nouns, filter),
{
    let mut s = String::from_str(HEAD_DEEP);
    s.append(pe_key);
    s.append(TAIL_DEEP);
    if has_nouns {
        s.append(" where ");
        s.append(" noun in [");
        s.append(nouns_str);
        s.append("]");
    }
    if filter {
        if has_nouns {
            s.append(" and ");
        } else {
            s.append(" where ");
        }
        s.append("array::len(->inst_relate) = 0 and array::len(->tubi_relate) = 0");
    }
    s
}

/// The deep-children statement restricted to a noun list, with `filter` only
/// the children that have not been generated yet.
pub open spec fn children_by_noun_text(pe_key: Seq<char>, nouns_str: Seq<char>, filter: bool) -> Seq<char> {
    HEAD_DEEP@ + pe_key + TAIL_DEEP@ + " where noun in ["@ + nouns_str + "]"@ + if filter {
        " and "@ + ungenerated_clause()
    } else {
        Seq::empty()
    }
}

/// The statement of `query_deep_children_filter_inst`.
pub fn children_by_noun_sql(pe_key: &str, nouns_str: &str, filter: bool) -> (r: String)
    ensures
        r@ == children_by_noun_text(pe_key@, nouns_str@, filter),
{
    let mut s = String::from_str(HEAD_DEEP);
    s.append(pe_key);
    s.append(TAIL_DEEP);
    s.append(" where noun in [");
    s.append(nouns_str);
    s.append("]");
    if filter {
        s.append(" and ");
        s.append("array::len(->inst_relate) = 0 and array::len(->tubi_relate) = 0");
    }
    s
}

/// The head of the model-source statement (elements with a catalogue
/// reference), before the root record key.
pub const HEAD_SPRE: &'static str = "\n            let $a = array::flatten( object::values( select\n                  [id] as p0, <-pe_owner<-(? as p1)<-pe_owner<-(? as p2)<-pe_owner<-(? as p3)<-pe_owner<-(? as p4)<-pe_owner<-(? as p5)<-pe_owner<-(? as p6)<-pe_owner<-(? as p7)<-pe_owner<-(? as p8)<-pe_owner<-(? as p9)<-pe_owner<-(? as p10)<-pe_owner<-(? as p11)\n                   from only ";

/// What follows the root record key in the model-source statement.
pub const TAIL_SPRE: &'static str = " ) );\n\n            select value id from $a.refno where SPRE.id !=none || CATR.id != none\n        ";

/// The deep children with a `SPRE` or `CATR` reference, with `filter` only
/// those that have not been generated yet.
pub open spec fn children_with_spre_text(pe_key: Seq<char>, filter: bool) -> Seq<char> {
    HEAD_SPRE@ + pe_key + TAIL_SPRE@ + if filter {
        " and "@ + ungenerated_clause()
    } else {
        Seq::empty()
    }
}

/// The statement of `query_deep_children_refnos_filter_spre`.
pub fn children_with_spre_sql(pe_key: &str, filter: bool) -> (r: String)
    ensures
        r@ == children_with_spre_text(pe_key@, filter),
{
    let mut s = String::from_str(HEAD_SPRE);
    s.append(pe_key);
    s.append(TAIL_SPRE);
    if filter {
        s.append(" and ");
        s.append("array::len(->inst_relate) = 0 and array::len(->tubi_relate) = 0");
    }
    s
}

/// The statement that keeps, of the given records, those not generated yet.
pub open spec fn ungenerated_text(pe_keys: Seq<char>) -> Seq<char> {
    "select value id from ["@ + pe_keys + "] where "@ + ungenerated_clause()
}

fn slice_range<'a>(s: &'a [String], start: usize, end: usize) -> (r: &'a [String])
    requires
        start <= end <= s@.len(),
    ensures
        r@ == s@.subrange(start as int, end as int),
{
    let r = &s[start..end];
    r
}

/// The number of records per statement when candidates are checked.
pub const CANDIDATE_CHUNK: usize = 200;

/// The statements that check candidates for being ungenerated, one per chunk
/// of `CANDIDATE_CHUNK` records in order. `None` when no check is needed:
/// without `filter`, or without candidates, they are kept as they are.
pub fn ungenerated_queries(pe_keys: &[String], filter: bool) -> (r: Option<Vec<String>>)
    ensures
        (!filter || pe_keys@.len() == 0) ==> r is None,
        (filter && pe_keys@.len() > 0) ==> (r matches Some(v) && v@.len() == (pe_keys@.len()
            + CANDIDATE_CHUNK - 1) / CANDIDATE_CHUNK as int && forall|c: int|
            0 <= c < v@.len() ==> #[trigger] v@[c]@ == ungenerated_text(
                joined(
                    views(
                        pe_keys@.subrange(
                            c * CANDIDATE_CHUNK,
                            if (c + 1) * CANDIDATE_CHUNK <= pe_keys@.len() {
                                (c + 1) * CANDIDATE_CHUNK
                            } else {
                                pe_keys@.len() as int
                            },
                        ),
                    ),
                    ","@,
                ),
            )),
{
    let n = pe_keys.len();
    if !filter || n == 0 {
        return None;
    }
    let mut out: Vec<String> = Vec::new();
    let mut start: usize = 0;
    while start < n
        invariant
            n == pe_keys@.len(),
            start <= n,
            start == if out@.len() * CANDIDATE_CHUNK <= n {
                out@.len() * CANDIDATE_CHUNK
            } else {
                n as int
            },
            start < n ==> start == out@.len() * CANDIDATE_CHUNK,
            out@.len() > 0 ==> (out@.len() - 1) * CANDIDATE_CHUNK < n,
            forall|c: int|
                0 <= c < out@.len() ==> #[trigger] out@[c]@ == ungenerated_text(
                    joined(
                        views(
                            pe_keys@.subrange(
                                c * CANDIDATE_CHUNK,
                                if (c + 1) * CANDIDATE_CHUNK <= pe_keys@.len() {
                                    (c + 1) * CANDIDATE_CHUNK
                                } else {
                                    pe_keys@.len() as int
                                },
                            ),
                        ),
                        ","@,
                    ),
                ),
        decreases n - start,
    {
        let end: usize = if n - start >= CANDIDATE_CHUNK {
            start + CANDIDATE_CHUNK
        } else {
            n
        };
        let chunk = slice_range(pe_keys, start, end);
        let keys = join_keys(chunk);
        let mut s = String::from_str("select value id from [");
        s.append(keys.as_str());
        s.append("] where ");
        s.append("array::len(->inst_relate) = 0 and array::len(->tubi_relate) = 0");
        let ghost c = out@.len() as int;
        out.push(s);
        proof {
            assert(c * CANDIDATE_CHUNK == start);
            assert(out@[c]@ == ungenerated_text(joined(views(pe_keys@.subrange(start as int, end as int)), ","@)));
        }
        start = end;
    }
    proof {
        let l = out@.len() as int;
        assert(l > 0);
        assert((l - 1) * 200 < n <= l * 200);
        assert(l == (n + 199) / 200);
    }
    Some(out)
}

/// The statement of `query_filter_ancestors`: the ancestors whose `TYPE` or
/// `TYPEX` is one of the nouns.
pub open spec fn ancestors_filter_text(pe_keys: Seq<char>, nouns_str: Seq<char>) -> Seq<char> {
    "select value refno from ["@ + pe_keys + "] where refno.TYPE in ["@ + nouns_str
        + "] or refno.TYPEX in ["@ + nouns_str + "]"@
}

/// The statement of `query_filter_ancestors`.
pub fn ancestors_filter_sql(pe_keys: &str, nouns_str: &str) -> (r: String)
    ensures
        r@ == ancestors_filter_text(pe_keys@, nouns_str@),
{
    let mut s = String::from_str("select value refno from [");
    s.append(pe_keys);
    s.append("] where refno.TYPE in [");
    s.append(nouns_str);
    s.append("] or refno.TYPEX in [");
    s.append(nouns_str);
    s.append("]");
    s
}

/// The statement that reads the attribute maps of the given records whose
/// noun is in the list.
pub open spec fn children_atts_text(pe_keys: Seq<char>, nouns_str: Seq<char>) -> Seq<char> {
    "select value refno.* from ["@ + pe_keys + "] where noun in ["@ + nouns_str + "]"@
}

/// One statement of `query_filter_deep_children_atts`.
pub fn children_atts_sql(pe_keys: &str, nouns_str: &str) -> (r: String)
    ensures
        r@ == children_atts_text(pe_keys@, nouns_str@),
{
    let mut s = String::from_str("select value refno.* from [");
    s.append(pe_keys);
    s.append("] where noun in [");
    s.append(nouns_str);
    s.append("]");
    s
}

/// The statement that reads the whole records of the given keys whose noun
/// is in the list.
pub open spec fn element_records_text(pe_keys: Seq<char>, nouns_str: Seq<char>) -> Seq<char> {
    "select * from ["@ + pe_keys + "] where noun in ["@ + nouns_str + "]"@
}

/// The statement of `query_ele_filter_deep_children`.
pub fn element_records_sql(pe_keys: &str, nouns_str: &str) -> (r: String)
    ensures
        r@ == element_records_text(pe_keys@, nouns_str@),
{
    let mut s = String::from_str("select * from [");
    s.append(pe_keys);
    s.append("] where noun in [");
    s.append(nouns_str);
    s.append("]");
    s
}

/// A UDA type as stored: without its leading `:`, if it has one.
pub open spec fn uda_type_name(uda_type: Seq<char>) -> Seq<char> {
    if uda_type.len() > 0 && uda_type[0] == ':' {
        uda_type.subrange(1, uda_type.len() as int)
    } else {
        uda_type
    }
}

/// Strips the leading `:` of a UDA type name.
pub fn strip_uda_prefix(uda_type: &str) -> (r: &str)
    ensures
        r@ == uda_type_name(uda_type@),
{
    let len = uda_type.unicode_len();
    if len > 0 && uda_type.get_char(0) == ':' {
        uda_type.substring_char(1, len)
    } else {
        uda_type
    }
}

/// The statement of `get_uda_type_refnos_from_select_refnos` for one
/// selected element: the UDA keys of the type, then the tree nodes of the
/// given records whose `TYPEX` is one of them.
pub open spec fn uda_elements_text(uda_type: Seq<char>, refnos_str: Seq<char>) -> Seq<char> {
    "let $ukey = select value UKEY from UDET where DYUDNA = '"@ + uda_type
        + "';\n        select refno,fn::default_name(id) as name,noun,owner,0 as children_count from ["@
        + refnos_str + "] where refno.TYPEX in $ukey;"@
}

/// The statement of `get_uda_type_refnos_from_select_refnos` for one
/// selected element; `uda_type` is the name without its leading `:`.
pub fn uda_elements_sql(uda_type: &str, refnos_str: &str) -> (r: String)
    ensures
        r@ == uda_elements_text(uda_type@, refnos_str@),
{
    let mut s = String::from_str("let $ukey = select value UKEY from UDET where DYUDNA = '");
    s.append(uda_type);
    s.append(
        "';\n        select refno,fn::default_name(id) as name,noun,owner,0 as children_count from [",
    );
    s.append(refnos_str);
    s.append("] where refno.TYPEX in $ukey;");
    s
}

/// The head of the deep-children statement at the latest state, before the
/// root record key.
pub const HEAD_LATEST: &'static str = "\n             return array::flatten( object::values( (select\n                  [id] as p0, <-pe_owner[? !in.deleted]<-(? as p1)<-pe_owner<-(? as p2)<-pe_owner<-(? as p3)<-pe_owner<-(? as p4)<-pe_owner<-(? as p5)<-pe_owner<-(? as p6)<-pe_owner<-(? as p7)<-pe_owner<-(? as p8)<-pe_owner<-(? as p9)<-pe_owner<-(? as p10)<-pe_owner<-(? as p11)\n                   from only ";

/// What follows the root record key at the latest state: deleted elements
/// are left out.
pub const TAIL_LATEST: &'static str = " where record::exists(id))?:{} ) )[? !deleted];\n            ";

/// The head of the deep-children statement at a past session, before the
/// root record key.
pub const HEAD_SESSION: &'static str = "\n                let $dt=<datetime>fn::ses_date(";

/// Between the two uses of the root record key at a past session.
pub const MID_SESSION: &'static str = "); \n                let $r = array::flatten( object::values( (select\n                    [id] as p0, <-pe_owner<-(? as p1)<-pe_owner<-(? as p2)<-pe_owner<-(? as p3)<-pe_owner<-(? as p4)<-pe_owner<-(? as p5)<-pe_owner<-(? as p6)<-pe_owner<-(? as p7)<-pe_owner<-(? as p8)<-pe_owner<-(? as p9)<-pe_owner<-(? as p10)<-pe_owner<-(? as p11)\n                    from only fn::newest_pe(";

/// What follows the second use of the root record key at a past session:
/// each child is taken at the session's date.
pub const TAIL_SESSION: &'static str = ") where record::exists(id))?:{} ) )[? (!deleted or <datetime>fn::ses_date(id)>$dt)];\n                select value fn::find_pe_by_datetime($self.id, $dt) from $r;\n            ";

/// The statement that lists every deep child of a record (eleven owner hops
/// below it): at the latest state without deleted children, at a past
/// session as of that session's date.
pub open spec fn deep_children_text(pe_key: Seq<char>, latest: bool) -> Seq<char> {
    if latest {
        HEAD_LATEST@ + pe_key + TAIL_LATEST@
    } else {
        HEAD_SESSION@ + pe_key + MID_SESSION@ + pe_key + TAIL_SESSION@
    }
}

/// The statement of `query_deep_children_refnos` for the record `pe_key`.
pub fn deep_children_sql(pe_key: &str, latest: bool) -> (r: String)
    ensures
        r@ == deep_children_text(pe_key@, latest),
{
    if latest {
        let mut s = String::from_str(HEAD_LATEST);
        s.append(pe_key);
        s.append(TAIL_LATEST);
        s
    } else {
        let mut s = String::from_str(HEAD_SESSION);
        s.append(pe_key);
        s.append(MID_SESSION);
        s.append(pe_key);
        s.append(TAIL_SESSION);
        s
    }
}

/// Which statement of `deep_children_sql` answers: the first at the latest
/// state, the third (after the two `let`s) at a past session.
pub fn deep_children_statement(latest: bool) -> (r: usize)
    ensures
        r == if latest { 0usize } else { 2usize },
{
    if latest {
        0
    } else {
        2
    }
}

/// The head of the deep-children statement over the PBS tree.
pub const HEAD_PBS: &'static str = "\n             return array::flatten( object::values( select\n                  [id] as p0, <-pbs_owner[? !in.deleted]<-(? as p1)<-pbs_owner<-(? as p2)<-pbs_owner<-(? as p3)<-pbs_owner<-(? as p4)<-pbs_owner<-(? as p5)<-pbs_owner<-(? as p6)<-pbs_owner<-(? as p7)<-pbs_owner<-(? as p8)<-pbs_owner<-(? as p9)<-pbs_owner<-(? as p10)<-pbs_owner<-(? as p11)\n                   from only ";

/// What follows the root record key over the PBS tree.
pub const TAIL_PBS: &'static str = " ) )[? !deleted];\n            ";

/// The statement that lists every deep child of a record of the PBS tree.
pub open spec fn deep_children_pbs_text(key: Seq<char>) -> Seq<char> {
    HEAD_PBS@ + key + TAIL_PBS@
}

/// The statement of `query_deep_children_refnos_pbs`.
pub fn deep_children_pbs_sql(key: &str) -> (r: String)
    ensures
        r@ == deep_children_pbs_text(key@),
{
    let mut s = String::from_str(HEAD_PBS);
    s.append(key);
    s.append(TAIL_PBS);
    s
}

/// The statement that finds the walls below a record.
pub open spec fn walls_below_text(pe_key: Seq<char>) -> Seq<char> {
    "select fn::find_deep_children_types(id,['STWALL', 'GWALL', 'WALL']) from "@ + pe_key
}

/// The first statement of `query_wall_doors`.
pub fn walls_below_sql(pe_key: &str) -> (r: String)
    ensures
        r@ == walls_below_text(pe_key@),
{
    let mut s = String::from_str("select fn::find_deep_children_types(id,['STWALL', 'GWALL', 'WALL']) from ");
    s.append(pe_key);
    s
}

/// The statement that reads the full names of the given walls.
pub open spec fn wall_names_text(walls_key: Seq<char>) -> Seq<char> {
    "select fn::default_full_name(id) as name,id from ["@ + walls_key + "]"@
}

/// The second statement of `query_wall_doors`.
pub fn wall_names_sql(walls_key: &str) -> (r: String)
    ensures
        r@ == wall_names_text(walls_key@),
{
    let mut s = String::from_str("select fn::default_full_name(id) as name,id from [");
    s.append(walls_key);
    s.append("]");
    s
}

/// The statement that finds the door openings of the given walls.
pub open spec fn wall_doors_text(walls_key: Seq<char>) -> Seq<char> {
    "fn::find_door_from_wall(["@ + walls_key + "])"@
}

/// The third statement of `query_wall_doors`.
pub fn wall_doors_sql(walls_key: &str) -> (r: String)
    ensures
        r@ == wall_doors_text(walls_key@),
{
    let mut s = String::from_str("fn::find_door_from_wall([");
    s.append(walls_key);
    s.append("])");
    s
}

/// The deep-children statement by noun reads the children of the listed
/// nouns: without `filter` it is the deep-children head and tail around the
/// key followed by the noun condition, and `filter` only adds the
/// not-yet-generated condition after it with `and`, so that it narrows the
/// children of those nouns and never lets in children of other nouns.
pub proof fn lemma_children_by_noun_narrows(pe_key: Seq<char>, nouns_str: Seq<char>)
    ensures
        children_by_noun_text(pe_key, nouns_str, false) == HEAD_DEEP@ + pe_key + TAIL_DEEP@
            + " where noun in ["@ + nouns_str + "]"@,
        children_by_noun_text(pe_key, nouns_str, true) == children_by_noun_text(pe_key, nouns_str, false)
            + " and array::len(->inst_relate) = 0 and array::len(->tubi_relate) = 0"@,
{
    reveal_strlit(" and ");
    reveal_strlit("array::len(->inst_relate) = 0 and array::len(->tubi_relate) = 0");
    reveal_strlit(" and array::len(->inst_relate) = 0 and array::len(->tubi_relate) = 0");
    assert(children_by_noun_text(pe_key, nouns_str, false) =~= HEAD_DEEP@ + pe_key + TAIL_DEEP@
        + " where noun in ["@ + nouns_str + "]"@);
    assert(children_by_noun_text(pe_key, nouns_str, true) =~= children_by_noun_text(pe_key, nouns_str, false)
        + " and array::len(->inst_relate) = 0 and array::len(->tubi_relate) = 0"@);
}

/// The statement of the catalogue-referenced deep children is, without
/// `filter`, exactly the head and tail around the key (every such child,
/// generated or not); `filter` only adds the not-yet-generated condition
/// after it with `and`.
pub proof fn lemma_children_with_spre_filter(pe_key: Seq<char>)
    ensures
        children_with_spre_text(pe_key, false) == HEAD_SPRE@ + pe_key + TAIL_SPRE@,
        children_with_spre_text(pe_key, true) == children_with_spre_text(pe_key, false)
            + " and array::len(->inst_relate) = 0 and array::len(->tubi_relate) = 0"@,
{
    reveal_strlit(" and ");
    reveal_strlit("array::len(->inst_relate) = 0 and array::len(->tubi_relate) = 0");
    reveal_strlit(" and array::len(->inst_relate) = 0 and array::len(->tubi_relate) = 0");
    assert(children_with_spre_text(pe_key, false) =~= HEAD_SPRE@ + pe_key + TAIL_SPRE@);
    assert(children_with_spre_text(pe_key, true) =~= children_with_spre_text(pe_key, false)
        + " and array::len(->inst_relate) = 0 and array::len(->tubi_relate) = 0"@);
}

/// The attribute maps and the element records of the given records are read
/// from the same selection as `filter_children_text` makes for a non-empty
/// noun list, the records whose noun is in the list: the three statements
/// differ only in what they select, and that selection ends with the noun
/// condition.
pub proof fn lemma_records_by_noun_share_the_selection(pe_keys: Seq<char>, nouns_str: Seq<char>)
    ensures
        filter_children_text(pe_keys, nouns_str, false) == "select value id from ["@ + pe_keys
            + "] where noun in ["@ + nouns_str + "]"@,
        children_atts_text(pe_keys, nouns_str) == "select value refno.* "@ + filter_children_text(
            pe_keys,
            nouns_str,
            false,
        ).skip(16),
        element_records_text(pe_keys, nouns_str) == "select * "@ + filter_children_text(
            pe_keys,
            nouns_str,
            false,
        ).skip(16),
        element_records_text(pe_keys, nouns_str).skip(element_records_text(pe_keys, nouns_str).len()
            - nouns_str.len() - 17) == " where noun in ["@ + nouns_str + "]"@,
{
    reveal_strlit("select value id from [");
    reveal_strlit("select value refno.* from [");
    reveal_strlit("select value refno.* ");
    reveal_strlit("select * from [");
    reveal_strlit("select * ");
    reveal_strlit("] where noun in [");
    reveal_strlit(" where noun in [");
    reveal_strlit("]");
    let f = filter_children_text(pe_keys, nouns_str, false);
    assert(f =~= "select value id from ["@ + pe_keys + "] where noun in ["@ + nouns_str + "]"@);
    assert(children_atts_text(pe_keys, nouns_str) =~= "select value refno.* "@ + f.skip(16));
    assert(element_records_text(pe_keys, nouns_str) =~= "select * "@ + f.skip(16));
    let e = element_records_text(pe_keys, nouns_str);
    assert(e.skip(e.len() - nouns_str.len() - 17) =~= " where noun in ["@ + nouns_str + "]"@);
}

} // verus!
