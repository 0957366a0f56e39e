use instant_distance::{Builder, HnswMap, Point, Search};
use nalgebra::DVector;
use vector_db::api;
use vector_db::comp::CompanyCollection;
use vector_db::config::EMBEDDING_LENGTH;
use vector_db::db::Database;
use vector_db::errors::Error;
use vector_db::ident::Principal;
use vector_db::index::Vector;
use vector_db::management::AccessControl;
use vector_db::msg::Msg;

#[derive(Clone)]
struct Pt(Vec<f64>);

impl Point for Pt {
    fn distance(&self, other: &Self) -> f32 {
        let a = DVector::from_vec(self.0.clone());
        let b = DVector::from_vec(other.0.clone());
        let diff = &a - &b;
        diff.dot(&diff).abs() as f32
    }
}

fn cos_sim(a: &[f64], b: &[f64]) -> f64 {
    let va = DVector::from_vec(a.to_vec());
    let vb = DVector::from_vec(b.to_vec());
    va.dot(&vb) / (va.norm() * vb.norm())
}

fn bits(v: &[f64]) -> Vec<u64> {
    v.iter().map(|x| x.to_bits()).collect()
}

fn floats(v: &[u64]) -> Vec<f64> {
    v.iter().map(|x| f64::from_bits(*x)).collect()
}

fn basis(i: usize) -> Vec<f64> {
    let mut v = vec![0.0; EMBEDDING_LENGTH];
    v[i] = 1.0;
    v
}

fn mix(i: usize, j: usize, wi: f64, wj: f64) -> Vec<f64> {
    let mut v = vec![0.0; EMBEDDING_LENGTH];
    v[i] = wi;
    v[j] = wj;
    v
}

/// Builds the nearest-neighbour structure over a tenant's current index
/// snapshot, exactly as the surrounding application does: the snapshot is
/// the log prefix the last rebuild covered, and an unbuilt index searches
/// as empty.
fn snapshot_index(comps: &CompanyCollection, id: u32) -> Option<HnswMap<Pt, u64>> {
    let c = comps.get(&id)?;
    let n = c.db.indexed;
    if n == 0 {
        return None;
    }
    let mut points = Vec::new();
    let mut handles = Vec::new();
    for i in 0..n {
        points.push(Pt(floats(c.db.keys[i].components())));
        handles.push(c.db.values[i]);
    }
    // A fixed seed keeps index construction deterministic given entry order.
    Some(Builder::default().seed(7).build(points, handles))
}

/// Searches the snapshot and scores each hit, producing the ranked
/// `(score-bits, handle)` pairs the library resolves.
fn ranked_for(index: &Option<HnswMap<Pt, u64>>, probe: &[f64]) -> Vec<(u64, u64)> {
    let mut out = Vec::new();
    if let Some(map) = index {
        let mut search = Search::default();
        let probe_pt = Pt(probe.to_vec());
        for item in map.search(&probe_pt, &mut search) {
            out.push((cos_sim(&item.point.0, probe).to_bits(), *item.value));
        }
    }
    out
}

fn query(
    comps: &CompanyCollection,
    id: u32,
    probe: &[f64],
    limit: i32,
) -> Result<Vec<(f64, String)>, Error> {
    let index = snapshot_index(comps, id);
    let ranked = ranked_for(&index, probe);
    let raw = api::get_similar(comps, id, bits(probe), &ranked, limit)?;
    Ok(raw.into_iter().map(|(s, p)| (f64::from_bits(s), p)).collect())
}

fn tenant_with(owner: &str, entries: &[(Vec<f64>, &str)]) -> (CompanyCollection, u32) {
    let mut comps = CompanyCollection::new();
    let id = api::register(
        &mut comps,
        Principal::new(owner.to_string()),
        "store under test".to_string(),
    )
    .unwrap();
    let keys: Vec<Vec<u64>> = entries.iter().map(|(v, _)| bits(v)).collect();
    let values: Vec<String> = entries.iter().map(|(_, p)| p.to_string()).collect();
    api::append_keys_values(&mut comps, id, keys, values).unwrap();
    (comps, id)
}

#[test]
fn database_new_builds_over_given_entries() {
    let keys = vec![
        Vector::from_raw(bits(&basis(0))).unwrap(),
        Vector::from_raw(bits(&basis(1))).unwrap(),
    ];
    let values = vec!["A".to_string(), "B".to_string()];
    let db = Database::new(keys, values);
    assert_eq!(db.keys.len(), 2);
    assert_eq!(db.values, vec![0, 1]);
    assert_eq!(db.storage, vec!["A".to_string(), "B".to_string()]);
    // A store built over its entries starts with all of them indexed.
    assert_eq!(db.indexed, 2);
}

#[test]
fn store_one_document_files_without_log_entry() {
    let mut db = Database::new(Vec::new(), Vec::new());
    let h = db.store_one_document("loose doc".to_string()).unwrap();
    assert_eq!(h, 0);
    let h2 = db.store_one_document("second".to_string()).unwrap();
    assert_eq!(h2, 1);
    assert_eq!(db.storage.len(), 2);
    assert_eq!(db.keys.len(), 0);
}

#[test]
fn empty_state_defaults() {
    let acl = AccessControl::default();
    assert!(acl.access_list_enabled);
    assert!(acl.managers.is_empty());
    assert!(acl.accessers.is_empty());
    assert_eq!(acl.owner.text().as_str(), "");
    let m = Msg::default();
    assert_eq!(m.connection_id, 0);
    assert_eq!(m.message_id, 0);
    assert!(m.connections.is_empty());
    assert!(m.message_log.is_empty());
}

#[test]
fn append_mismatched_lengths_changes_nothing() {
    let mut comps = CompanyCollection::new();
    let id = api::register(&mut comps, Principal::new("o".to_string()), "t".to_string()).unwrap();
    let keys = vec![bits(&basis(0))];
    let values = vec!["a".to_string(), "b".to_string()];
    let r = api::append_keys_values(&mut comps, id, keys, values);
    assert!(matches!(r, Err(Error::LengthMismatch)));
    assert_eq!(comps.get(&id).unwrap().db.keys.len(), 0);
    assert_eq!(comps.get(&id).unwrap().db.storage.len(), 0);
}

#[test]
fn append_counts_only_dimension_valid_entries() {
    let mut comps = CompanyCollection::new();
    let id = api::register(&mut comps, Principal::new("o".to_string()), "t".to_string()).unwrap();
    let keys = vec![
        bits(&basis(0)),
        vec![0u64; EMBEDDING_LENGTH - 1],
        bits(&basis(1)),
        vec![0u64; EMBEDDING_LENGTH + 1],
    ];
    let values = vec![
        "kept-a".to_string(),
        "skipped".to_string(),
        "kept-b".to_string(),
        "skipped-too".to_string(),
    ];
    api::append_keys_values(&mut comps, id, keys, values).unwrap();
    let db = &comps.get(&id).unwrap().db;
    assert_eq!(db.keys.len(), 2);
    assert_eq!(db.storage, vec!["kept-a".to_string(), "kept-b".to_string()]);
    // A second matched append concatenates at the end.
    api::append_keys_values(&mut comps, id, vec![bits(&basis(2))], vec!["kept-c".to_string()])
        .unwrap();
    assert_eq!(comps.get(&id).unwrap().db.keys.len(), 3);
}

#[test]
fn stale_index_hides_new_entries_until_rebuild() {
    let (mut comps, id) =
        tenant_with("o", &[(basis(0), "A"), (basis(1), "B")]);
    api::build_index(&mut comps, id).unwrap();
    let probe = mix(0, 2, 0.9, 0.1);
    let before = query(&comps, id, &probe, 10).unwrap();
    assert!(!before.is_empty());

    // Append without rebuilding: queries must come back byte-for-byte the
    // same, although the new entry matches the probe better.
    api::append_keys_values(&mut comps, id, vec![bits(&probe)], vec!["C".to_string()]).unwrap();
    let after_append = query(&comps, id, &probe, 10).unwrap();
    assert_eq!(before, after_append);
    assert!(!after_append.iter().any(|(_, p)| p == "C"));

    // After an explicit rebuild the new entry becomes retrievable, as the
    // best match.
    api::build_index(&mut comps, id).unwrap();
    let after_rebuild = query(&comps, id, &probe, 10).unwrap();
    assert!(after_rebuild.iter().any(|(_, p)| p == "C"));
    assert_eq!(after_rebuild[0].1, "C");
}

#[test]
fn unbuilt_index_answers_empty() {
    let (comps, id) = tenant_with("o", &[(basis(0), "A")]);
    // No rebuild has ever run: nothing is retrievable.
    let r = query(&comps, id, &basis(0), 5).unwrap();
    assert!(r.is_empty());
}

#[test]
fn ranking_is_non_increasing_and_bounded() {
    let (mut comps, id) = tenant_with(
        "o",
        &[
            (basis(0), "straight"),
            (mix(0, 1, 0.8, 0.2), "near"),
            (basis(1), "orthogonal"),
            (mix(1, 2, 0.5, 0.5), "far"),
        ],
    );
    api::build_index(&mut comps, id).unwrap();
    let probe = basis(0);
    let r = query(&comps, id, &probe, 3).unwrap();
    assert!(r.len() <= 3);
    assert!(r.len() <= 4);
    for w in r.windows(2) {
        assert!(w[0].0 >= w[1].0, "scores must be non-increasing");
    }
    assert_eq!(r[0].1, "straight");
    assert!((r[0].0 - 1.0).abs() < 1e-12);

    // A limit below the index size truncates; zero and negative limits
    // return nothing.
    assert_eq!(query(&comps, id, &probe, 1).unwrap().len(), 1);
    assert!(query(&comps, id, &probe, 0).unwrap().is_empty());
    assert!(query(&comps, id, &probe, -3).unwrap().is_empty());
}

#[test]
fn probe_dimension_is_validated() {
    let (mut comps, id) = tenant_with("o", &[(basis(0), "A")]);
    api::build_index(&mut comps, id).unwrap();
    let short = vec![1.0f64.to_bits(); EMBEDDING_LENGTH - 1];
    assert!(matches!(
        api::get_similar(&comps, id, short, &Vec::new(), 5),
        Err(Error::DimensionMismatch)
    ));
    assert!(matches!(
        api::get_similar(&comps, 9, bits(&basis(0)), &Vec::new(), 5),
        Err(Error::NoSuchTenant)
    ));
}

#[test]
fn tenants_never_leak_each_others_payloads() {
    let mut comps = CompanyCollection::new();
    let acme = api::register(&mut comps, Principal::new("a".to_string()), "acme".to_string())
        .unwrap();
    let globex = api::register(&mut comps, Principal::new("g".to_string()), "globex".to_string())
        .unwrap();
    api::append_keys_values(
        &mut comps,
        acme,
        vec![bits(&basis(0)), bits(&basis(1))],
        vec!["acme-0".to_string(), "acme-1".to_string()],
    )
    .unwrap();
    api::append_keys_values(
        &mut comps,
        globex,
        vec![bits(&basis(0)), bits(&basis(2))],
        vec!["globex-0".to_string(), "globex-2".to_string()],
    )
    .unwrap();
    api::build_index(&mut comps, acme).unwrap();
    api::build_index(&mut comps, globex).unwrap();

    // Identical probes on both tenants: each answer draws on its own log
    // only.
    let probe = basis(0);
    let from_acme = query(&comps, acme, &probe, 10).unwrap();
    let from_globex = query(&comps, globex, &probe, 10).unwrap();
    assert!(!from_acme.is_empty());
    assert!(!from_globex.is_empty());
    assert!(from_acme.iter().all(|(_, p)| p.starts_with("acme-")));
    assert!(from_globex.iter().all(|(_, p)| p.starts_with("globex-")));
}

#[test]
fn register_append_rebuild_query_scenario() {
    let mut comps = CompanyCollection::new();
    let id = api::register(
        &mut comps,
        Principal::new("acme-owner".to_string()),
        "Acme".to_string(),
    )
    .unwrap();
    assert_eq!(id, 0);
    api::append_keys_values(
        &mut comps,
        id,
        vec![bits(&basis(0)), bits(&basis(1))],
        vec!["A".to_string(), "B".to_string()],
    )
    .unwrap();

    // Before any rebuild the index is empty: a query returns nothing.
    assert_eq!(query(&comps, id, &basis(0), 5).unwrap(), Vec::new());

    api::build_index(&mut comps, id).unwrap();
    let r = query(&comps, id, &basis(0), 1).unwrap();
    assert_eq!(r.len(), 1);
    assert_eq!(r[0].0, 1.0);
    assert_eq!(r[0].1, "A");
}
