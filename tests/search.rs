use storefront::catalog::{Catalog, ProductEntity};
use storefront::error::AppError;
use storefront::money::Money;
use storefront::reindex::{reindex_all, Reindex, ReindexAction, ReindexEvent, ReindexPhase};
use storefront::search::{
    bulk_sync, settle_sync, sync_delete, sync_upsert, to_search_document, DocumentIndex, IndexCommand,
};

fn product(id: u128, active: bool) -> ProductEntity {
    ProductEntity {
        id,
        category_id: 3,
        name: format!("product {}", id),
        description: if id % 2 == 0 { Some(format!("about {}", id)) } else { None },
        price: Money { mantissa: id as i128 * 100 + 99, scale: 2 },
        stock: 1,
        review_count: 0,
        is_active: active,
        created_at: id as i64,
        updated_at: None,
    }
}

#[test]
fn document_mirrors_product() {
    let d = to_search_document(&product(4, true));
    assert_eq!(d.id, 4);
    assert_eq!(d.name, "product 4");
    assert_eq!(d.description, "about 4");
    assert_eq!(d.price, Money { mantissa: 499, scale: 2 });
    assert_eq!(d.category_id, 3);
    assert_eq!(d.image_url, None);
    assert_eq!(to_search_document(&product(5, true)).description, "");
}

#[test]
fn sync_upsert_twice_keeps_one_document() {
    let mut index = DocumentIndex::new();
    let p = product(1, true);
    index.apply(sync_upsert(&p));
    index.apply(sync_upsert(&p));
    assert_eq!(index.len(), 1);
    assert_eq!(index.get(1).unwrap().name, "product 1");
}

#[test]
fn upsert_replaces_by_id() {
    let mut index = DocumentIndex::new();
    index.apply(sync_upsert(&product(1, true)));
    let mut changed = product(1, true);
    changed.name = "renamed".to_string();
    index.apply(sync_upsert(&changed));
    assert_eq!(index.len(), 1);
    assert_eq!(index.get(1).unwrap().name, "renamed");
}

#[test]
fn delete_and_bulk() {
    let mut index = DocumentIndex::new();
    index.apply(bulk_sync(&vec![product(1, true), product(2, true), product(3, true)]));
    assert_eq!(index.len(), 3);
    assert_eq!(sync_delete(2), IndexCommand::Delete(2));
    index.apply(sync_delete(2));
    assert!(index.get(2).is_none());
    assert_eq!(index.len(), 2);
    index.apply(IndexCommand::DeleteAll);
    assert_eq!(index.len(), 0);
}

#[test]
fn sync_failure_does_not_fail_the_write() {
    let written: Result<u32, AppError> = Ok(7);
    assert_eq!(settle_sync(written, Err(AppError::SearchIndexError("down".to_string()))), Ok(7));
}

fn catalog_of(n: u128) -> Catalog {
    let mut c = Catalog::new();
    for id in 1..=n {
        c.products.push(product(id, true));
    }
    c
}

#[test]
fn reindex_holds_exactly_the_active_products() {
    for page_size in [1usize, 2, 3, 4, 7, 1000] {
        let mut catalog = catalog_of(7);
        assert!(catalog.soft_delete(3));
        catalog.products[5].is_active = false;
        let mut index = DocumentIndex::new();
        index.apply(sync_upsert(&product(3, true)));
        index.apply(sync_upsert(&product(99, true)));
        reindex_all(&catalog, &mut index, page_size).unwrap();
        assert_eq!(index.len(), 5, "page size {}", page_size);
        for id in [1u128, 2, 4, 5, 7] {
            assert_eq!(index.get(id).unwrap().name, format!("product {}", id));
        }
        assert!(index.get(3).is_none());
        assert!(index.get(6).is_none());
        assert!(index.get(99).is_none());
    }
}

#[test]
fn reindex_of_empty_catalog_clears_index() {
    let catalog = Catalog::new();
    let mut index = DocumentIndex::new();
    index.apply(sync_upsert(&product(1, true)));
    reindex_all(&catalog, &mut index, 10).unwrap();
    assert_eq!(index.len(), 0);
}

#[test]
fn reindex_with_page_size_zero_ends_empty() {
    let catalog = catalog_of(3);
    let mut index = DocumentIndex::new();
    reindex_all(&catalog, &mut index, 0).unwrap();
    assert_eq!(index.len(), 0);
}

#[test]
fn reindex_is_idempotent() {
    let catalog = catalog_of(5);
    let mut index = DocumentIndex::new();
    reindex_all(&catalog, &mut index, 2).unwrap();
    reindex_all(&catalog, &mut index, 2).unwrap();
    assert_eq!(index.len(), 5);
}

#[test]
fn reindex_machine_walks_pages() {
    let (s, a) = Reindex::start(2);
    assert_eq!(a, ReindexAction::ClearIndex);
    let (s, a) = s.step(ReindexEvent::Cleared);
    assert_eq!(a, ReindexAction::FetchPage { page: 1, limit: 2 });
    let (s, a) = s.step(ReindexEvent::PageLoaded(vec![product(1, true), product(2, true)]));
    match a {
        ReindexAction::PushBatch(docs) => assert_eq!(docs.len(), 2),
        other => panic!("unexpected {:?}", other),
    }
    let (s, a) = s.step(ReindexEvent::BatchPushed);
    assert_eq!(a, ReindexAction::FetchPage { page: 2, limit: 2 });
    let (s, a) = s.step(ReindexEvent::PageLoaded(Vec::new()));
    assert_eq!(a, ReindexAction::Finish(Ok(())));
    assert_eq!(s.phase, ReindexPhase::Finished);
}

#[test]
fn reindex_machine_aborts_on_failed_clear() {
    let (s, _) = Reindex::start(10);
    let e = AppError::SearchIndexError("timeout".to_string());
    let (s, a) = s.step(ReindexEvent::ClearFailed(e.clone()));
    assert_eq!(a, ReindexAction::Finish(Err(e)));
    assert_eq!(s.phase, ReindexPhase::Finished);
}

#[test]
fn reindex_machine_rejects_out_of_turn_event() {
    let (s, _) = Reindex::start(10);
    let (_, a) = s.step(ReindexEvent::BatchPushed);
    assert!(matches!(a, ReindexAction::Finish(Err(AppError::InternalServerError(_)))));
}
