use aios_core::decimal::decimal_string;
use aios_core::direct_reads::{direct_reads_refusal, route_read, unsupported, unsupported_batch, ReadRoute};
use aios_core::inst_meta::{
    inst_meta_definitions, probe_says_defined, still_missing_message, EnsureAction, InstMetaEnsure,
    InstMetaFunction,
};
use aios_core::refno::RefU64;
use aios_core::selection::refnos_to_query;
use aios_core::sql::{
    ancestors_filter_sql, children_by_noun_sql, children_with_spre_sql, deep_children_pbs_sql,
    deep_children_sql, deep_children_statement, filter_children_sql, join_keys, quoted_list,
    strip_uda_prefix, ungenerated_queries, uda_elements_sql, versioned_children_sql, wall_doors_sql,
    wall_names_sql, walls_below_sql, HEAD_DEEP, TAIL_DEEP,
};
use aios_core::wall_doors::{group_wall_doors, WallDoorResult};

#[test]
fn a_query_the_provider_does_not_implement_is_an_error() {
    let error = unsupported("get_named_attmap", "4000000001/20");
    assert!(error.contains("get_named_attmap") && error.contains("not implemented"), "{error}");
    assert!(error.contains("(4000000001/20)"));
    assert!(error.ends_with("reading the same database twice"));
}

#[test]
fn a_batch_error_names_the_count_and_the_first_refno() {
    let refnos = vec!["1/2".to_string(), "3/4".to_string()];
    assert_eq!(
        unsupported_batch("cata_hash_of", &refnos),
        "direct read is not implemented for cata_hash_of over 2 refnos (first: 1/2); the direct provider must answer it or the generation must not run in a direct context"
    );
    assert!(unsupported_batch("cata_hash_of", &[]).contains("over 0 refnos (first: none)"));
}

#[test]
fn direct_reads_refuse_to_nest_inside_staging_reads() {
    let error = direct_reads_refusal("stub", Some("staging_r6")).unwrap();
    assert!(error.contains("staging read context"), "{error}");
    assert!(error.contains("(stub)") && error.contains("(staging_r6)"));
    assert_eq!(direct_reads_refusal("stub", None), None);
}

#[test]
fn the_direct_context_wins_over_staging() {
    assert_eq!(route_read(true, true), ReadRoute::Direct);
    assert_eq!(route_read(true, false), ReadRoute::Direct);
    assert_eq!(route_read(false, true), ReadRoute::Staging);
    assert_eq!(route_read(false, false), ReadRoute::Persistent);
}

/// Runs an ensure pass against a database that starts with the given
/// functions defined; returns the final action and the definitions sent.
fn ensure_against(mut refno_defined: bool, mut anc_defined: bool) -> (EnsureAction, Vec<InstMetaFunction>) {
    let (mut run, mut action) = InstMetaEnsure::start();
    let mut sent = Vec::new();
    loop {
        action = match action {
            EnsureAction::Probe(InstMetaFunction::RefnoU64) => run.on_probe(refno_defined),
            EnsureAction::Probe(InstMetaFunction::AncU64) => run.on_probe(anc_defined),
            EnsureAction::Define(f) => {
                sent.push(f);
                match f {
                    InstMetaFunction::RefnoU64 => refno_defined = true,
                    InstMetaFunction::AncU64 => anc_defined = true,
                }
                run.on_defined()
            }
            done => return (done, sent),
        };
    }
}

#[test]
fn missing_inst_meta_functions_are_installed_and_idempotent() {
    let (first, sent) = ensure_against(false, false);
    assert_eq!(first, EnsureAction::Installed(true));
    assert_eq!(sent, vec![InstMetaFunction::RefnoU64, InstMetaFunction::AncU64]);
    let (second, sent) = ensure_against(true, true);
    assert_eq!(second, EnsureAction::Installed(false), "second ensure is a no-op");
    assert!(sent.is_empty());
}

#[test]
fn existing_inst_meta_functions_are_not_overwritten() {
    let (result, sent) = ensure_against(true, true);
    assert_eq!(result, EnsureAction::Installed(false));
    assert!(sent.is_empty());
    let (result, sent) = ensure_against(true, false);
    assert_eq!(result, EnsureAction::Installed(true));
    assert_eq!(sent, vec![InstMetaFunction::AncU64]);
}

#[test]
fn a_definition_that_does_not_stick_is_reported() {
    let (mut run, _) = InstMetaEnsure::start();
    assert_eq!(run.on_probe(false), EnsureAction::Define(InstMetaFunction::RefnoU64));
    assert_eq!(run.on_defined(), EnsureAction::Probe(InstMetaFunction::AncU64));
    assert_eq!(run.on_probe(true), EnsureAction::Probe(InstMetaFunction::RefnoU64));
    assert_eq!(run.on_probe(false), EnsureAction::Probe(InstMetaFunction::AncU64));
    assert_eq!(
        run.on_probe(true),
        EnsureAction::StillMissing { refno_u64: true, anc_u64: false }
    );
    assert_eq!(
        still_missing_message(true, false),
        "SurrealDB 内置兼容函数复检失败：当前 database 缺少 fn::refno_u64"
    );
    assert_eq!(
        still_missing_message(true, true),
        "SurrealDB 内置兼容函数复检失败：当前 database 缺少 fn::refno_u64, fn::anc_u64"
    );
}

#[test]
fn the_builtin_script_splits_at_the_anc_definition() {
    let sql = "DEFINE FUNCTION OVERWRITE fn::refno_u64($r: record) { 1 };\nDEFINE FUNCTION OVERWRITE fn::anc_u64($r: record) { [] };";
    let (refno, anc) = inst_meta_definitions(sql);
    assert_eq!(refno, "DEFINE FUNCTION OVERWRITE fn::refno_u64($r: record) { 1 };\n");
    assert_eq!(anc, "DEFINE FUNCTION OVERWRITE fn::anc_u64($r: record) { [] };");
}

#[test]
fn probe_answers_are_read_three_ways() {
    assert_eq!(probe_says_defined(None), Some(true));
    assert_eq!(probe_says_defined(Some("The function 'fn::anc_u64' does not exist")), Some(false));
    assert_eq!(probe_says_defined(Some("connection reset")), None);
}

#[test]
fn decimal_rendering() {
    assert_eq!(decimal_string(0), "0");
    assert_eq!(decimal_string(7), "7");
    assert_eq!(decimal_string(4294967298), "4294967298");
    assert_eq!(decimal_string(u64::MAX), u64::MAX.to_string());
}

#[test]
fn deep_children_statements() {
    assert_eq!(filter_children_sql("pe:1_2,pe:1_3", "'BRAN'", false), "select value id from [pe:1_2,pe:1_3] where noun in ['BRAN']");
    assert_eq!(filter_children_sql("pe:1_2", "", true), "select value id from [pe:1_2]");
    let head = format!("{HEAD_DEEP}pe:1_2{TAIL_DEEP}");
    assert_eq!(versioned_children_sql("pe:1_2", "", false, false), head);
    assert_eq!(
        versioned_children_sql("pe:1_2", "'EQUI'", true, true),
        format!("{head} where  noun in ['EQUI'] and array::len(->inst_relate) = 0 and array::len(->tubi_relate) = 0")
    );
    assert_eq!(
        versioned_children_sql("pe:1_2", "", false, true),
        format!("{head} where array::len(->inst_relate) = 0 and array::len(->tubi_relate) = 0")
    );
    assert_eq!(children_by_noun_sql("pe:1_2", "'EQUI'", false), format!("{head} where noun in ['EQUI']"));
    assert!(children_with_spre_sql("pe:1_2", true).ends_with("CATR.id != none\n         and array::len(->inst_relate) = 0 and array::len(->tubi_relate) = 0"));
    assert_eq!(
        ancestors_filter_sql("pe:1_2", "'ZONE'"),
        "select value refno from [pe:1_2] where refno.TYPE in ['ZONE'] or refno.TYPEX in ['ZONE']"
    );
}

#[test]
fn lists_are_joined_with_commas() {
    assert_eq!(join_keys(&["pe:1_2".to_string(), "pe:1_3".to_string()]), "pe:1_2,pe:1_3");
    assert_eq!(join_keys(&[]), "");
    assert_eq!(quoted_list(&["BRAN", "HANG"]), "'BRAN','HANG'");
    assert_eq!(quoted_list(&[]), "");
}

#[test]
fn candidates_are_checked_two_hundred_at_a_time() {
    let keys: Vec<String> = (0..450).map(|i| format!("pe:1_{i}")).collect();
    assert_eq!(ungenerated_queries(&keys, false), None);
    assert_eq!(ungenerated_queries(&[], true), None);
    let queries = ungenerated_queries(&keys, true).unwrap();
    assert_eq!(queries.len(), 3);
    assert!(queries[0].starts_with("select value id from [pe:1_0,pe:1_1,"));
    assert!(queries[2].starts_with("select value id from [pe:1_400,"));
    assert!(queries[2].ends_with("pe:1_449] where array::len(->inst_relate) = 0 and array::len(->tubi_relate) = 0"));
}

#[test]
fn uda_types_lose_their_colon() {
    assert_eq!(strip_uda_prefix(":PIPE_SUPPORT"), "PIPE_SUPPORT");
    assert_eq!(strip_uda_prefix("PIPE_SUPPORT"), "PIPE_SUPPORT");
    assert_eq!(strip_uda_prefix(""), "");
    assert_eq!(
        uda_elements_sql("PIPE", "pe:1_2"),
        "let $ukey = select value UKEY from UDET where DYUDNA = 'PIPE';\n        select refno,fn::default_name(id) as name,noun,owner,0 as children_count from [pe:1_2] where refno.TYPEX in $ukey;"
    );
}

#[test]
fn doors_are_grouped_under_their_named_walls() {
    let door = |r: u64, name: &str, wall: u64| WallDoorResult { refno: RefU64(r), name: name.to_string(), wall: RefU64(wall) };
    let grouped = group_wall_doors(
        RefU64(1),
        vec![(RefU64(10), "W1".to_string()), (RefU64(20), "W2".to_string()), (RefU64(10), "W1b".to_string())],
        vec![door(100, "D1", 10), door(101, "D2", 30), door(102, "D3", 10)],
    );
    assert_eq!(grouped.len(), 1, "W2 has no door, wall 30 has no name");
    let entry = &grouped[&10];
    assert_eq!(entry.len(), 1);
    assert_eq!(entry[0].refno, RefU64(1));
    assert_eq!(entry[0].wall_name, "W1b");
    let names: Vec<&str> = entry[0].fitts.iter().map(|d| d.name.as_str()).collect();
    assert_eq!(names, vec!["D1", "D3"]);
}

#[test]
fn deep_children_statements_follow_the_session() {
    let latest = deep_children_sql("pe:1_2", true);
    assert!(latest.starts_with("\n             return array::flatten( object::values( (select\n"));
    assert!(latest.contains("<-pe_owner[? !in.deleted]<-(? as p1)<-pe_owner<-(? as p2)"));
    assert!(latest.ends_with("from only pe:1_2 where record::exists(id))?:{} ) )[? !deleted];\n            "));
    let past = deep_children_sql("pe:1_2", false);
    assert!(past.starts_with("\n                let $dt=<datetime>fn::ses_date(pe:1_2); \n"));
    assert!(past.contains("from only fn::newest_pe(pe:1_2) where record::exists(id))?:{} ) )[? (!deleted or <datetime>fn::ses_date(id)>$dt)];"));
    assert!(past.ends_with("select value fn::find_pe_by_datetime($self.id, $dt) from $r;\n            "));
    assert_eq!(deep_children_statement(true), 0);
    assert_eq!(deep_children_statement(false), 2);
}

#[test]
fn the_pbs_tree_uses_its_own_owner_edges() {
    let sql = deep_children_pbs_sql("pbs:7");
    assert!(sql.contains("[id] as p0, <-pbs_owner[? !in.deleted]<-(? as p1)<-pbs_owner<-(? as p2)"));
    assert!(sql.ends_with("from only pbs:7 ) )[? !deleted];\n            "));
    assert!(!sql.contains("pe_owner"));
}

#[test]
fn the_wall_statements_name_their_records() {
    assert_eq!(
        walls_below_sql("pe:1_2"),
        "select fn::find_deep_children_types(id,['STWALL', 'GWALL', 'WALL']) from pe:1_2"
    );
    assert_eq!(
        wall_names_sql("pe:1_3,pe:1_4"),
        "select fn::default_full_name(id) as name,id from [pe:1_3,pe:1_4]"
    );
    assert_eq!(wall_doors_sql("pe:1_3"), "fn::find_door_from_wall([pe:1_3])");
}

#[test]
fn only_elements_whose_noun_can_hold_a_wanted_noun_are_asked_about() {
    let refnos = vec![RefU64(1), RefU64(2), RefU64(3), RefU64(4)];
    let refno_nouns = vec![Some("BRAN".to_string()), Some("SITE".to_string()), None, Some("EQUI".to_string())];
    let paths = vec![vec![false], vec![true], vec![], vec![false]];
    assert_eq!(refnos_to_query(&refnos, &refno_nouns, &["BRAN"], &paths, true), vec![RefU64(1), RefU64(2)]);
    assert_eq!(refnos_to_query(&refnos, &refno_nouns, &[], &paths, true), refnos);
    assert_eq!(refnos_to_query(&refnos, &refno_nouns, &[], &paths, false), Vec::<RefU64>::new());
    assert_eq!(refnos_to_query(&refnos, &refno_nouns[..2], &["EQUI"], &paths, false), vec![RefU64(2)]);
    assert_eq!(refnos_to_query(&refnos, &refno_nouns, &["EQUI"], &paths, false), vec![RefU64(2), RefU64(4)]);
}
