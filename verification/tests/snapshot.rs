use instant_distance::{Builder, HnswMap, Point, Search};
use nalgebra::DVector;
use vector_db::api;
use vector_db::comp::CompanyCollection;
use vector_db::config::EMBEDDING_LENGTH;
use vector_db::ident::Principal;
use vector_db::migration::CompanyCollectionMigration;

#[derive(Clone)]
struct Pt(Vec<f64>);

impl Point for Pt {
    fn distance(&self, other: &Self) -> f32 {
        let a = DVector::from_vec(self.0.clone());
        let b = DVector::from_vec(other.0.clone());
        let diff = &a - &b;
        diff.dot(&diff).abs() as f32
    }
}

fn cos_sim(a: &[f64], b: &[f64]) -> f64 {
    let va = DVector::from_vec(a.to_vec());
    let vb = DVector::from_vec(b.to_vec());
    va.dot(&vb) / (va.norm() * vb.norm())
}

fn bits(v: &[f64]) -> Vec<u64> {
    v.iter().map(|x| x.to_bits()).collect()
}

fn floats(v: &[u64]) -> Vec<f64> {
    v.iter().map(|x| f64::from_bits(*x)).collect()
}

fn basis(i: usize) -> Vec<f64> {
    let mut v = vec![0.0; EMBEDDING_LENGTH];
    v[i] = 1.0;
    v
}

fn snapshot_index(comps: &CompanyCollection, id: u32) -> Option<HnswMap<Pt, u64>> {
    let c = comps.get(&id)?;
    let n = c.db.indexed;
    if n == 0 {
        return None;
    }
    let mut points = Vec::new();
    let mut handles = Vec::new();
    for i in 0..n {
        points.push(Pt(floats(c.db.keys[i].components())));
        handles.push(c.db.values[i]);
    }
    Some(Builder::default().seed(7).build(points, handles))
}

fn query(
    comps: &CompanyCollection,
    id: u32,
    probe: &[f64],
    limit: i32,
) -> Vec<(f64, String)> {
    let index = snapshot_index(comps, id);
    let mut ranked = Vec::new();
    if let Some(map) = &index {
        let mut search = Search::default();
        let probe_pt = Pt(probe.to_vec());
        for item in map.search(&probe_pt, &mut search) {
            ranked.push((cos_sim(&item.point.0, probe).to_bits(), *item.value));
        }
    }
    api::get_similar(comps, id, bits(probe), &ranked, limit)
        .unwrap()
        .into_iter()
        .map(|(s, p)| (f64::from_bits(s), p))
        .collect()
}

fn populated_registry() -> CompanyCollection {
    let mut comps = CompanyCollection::new();
    let acme = api::register(&mut comps, Principal::new("alice".to_string()), "Acme".to_string())
        .unwrap();
    let globex =
        api::register(&mut comps, Principal::new("bob".to_string()), "Globex".to_string())
            .unwrap();
    api::append_keys_values(
        &mut comps,
        acme,
        vec![bits(&basis(0)), bits(&basis(1))],
        vec!["A".to_string(), "B".to_string()],
    )
    .unwrap();
    api::append_keys_values(&mut comps, globex, vec![bits(&basis(2))], vec!["C".to_string()])
        .unwrap();
    api::build_index(&mut comps, acme).unwrap();
    api::build_index(&mut comps, globex).unwrap();
    comps
}

#[test]
fn roundtrip_preserves_owner_description_and_log() {
    let before = populated_registry();
    let saved = CompanyCollectionMigration::from_collection(&before);
    let restored = saved.into_collection();

    assert_eq!(restored.counter, before.counter);
    assert_eq!(restored.companies.len(), before.companies.len());
    for i in 0..before.companies.len() {
        let b = &before.companies[i];
        let r = &restored.companies[i];
        assert_eq!(r.owner.text(), b.owner.text());
        assert_eq!(r.description, b.description);
        assert_eq!(r.db.keys.len(), b.db.keys.len());
        for k in 0..b.db.keys.len() {
            assert_eq!(r.db.keys[k].components(), b.db.keys[k].components());
        }
        assert_eq!(r.db.storage, b.db.storage);
        // The index itself is never persisted.
        assert_eq!(r.db.indexed, 0);
    }
    assert_eq!(restored.owner_mapping.len(), before.owner_mapping.len());
    for i in 0..before.owner_mapping.len() {
        assert_eq!(restored.owner_mapping[i].0.text(), before.owner_mapping[i].0.text());
        assert_eq!(restored.owner_mapping[i].1, before.owner_mapping[i].1);
    }
    assert_eq!(restored.get_id_by_principal(&Principal::new("alice".to_string())), Some(0));
}

#[test]
fn restored_registry_answers_queries_after_rebuild() {
    let before = populated_registry();
    let probe = basis(0);
    let expected = query(&before, 0, &probe, 5);
    assert!(!expected.is_empty());

    let saved = CompanyCollectionMigration::from_collection(&before);
    let mut restored = saved.into_collection();

    // Fresh restore: the index is gone until an explicit rebuild.
    assert!(query(&restored, 0, &probe, 5).is_empty());

    api::build_index(&mut restored, 0).unwrap();
    assert_eq!(query(&restored, 0, &probe, 5), expected);
}
