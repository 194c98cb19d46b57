use things_to_check::share::{ItemQuery, QueryError};

#[test]
fn query_for_index() {
    let q = ItemQuery::from(&5usize);
    assert_eq!(q.item, Some(5));
    assert_eq!(q.to_query().unwrap(), "item=5");
    assert_eq!(ItemQuery::from(&1234usize).to_query().unwrap(), "item=1234");
    assert_eq!(ItemQuery::default().to_query().unwrap(), "");
}

#[test]
fn query_round_trip() {
    for i in [0usize, 1, 9, 10, 42, 1000, usize::MAX] {
        let text = ItemQuery::from(&i).to_query().unwrap();
        assert_eq!(ItemQuery::parse(&text).unwrap().item, Some(i));
    }
}

#[test]
fn parse_query_without_item() {
    assert_eq!(ItemQuery::parse("").unwrap().item, None);
    assert_eq!(ItemQuery::parse("other=3").unwrap().item, None);
}

#[test]
fn parse_query_with_other_pairs() {
    assert_eq!(ItemQuery::parse("a=b&item=7&c=d").unwrap().item, Some(7));
    assert_eq!(ItemQuery::parse("item=%2B8").unwrap().item, Some(8));
}

#[test]
fn parse_query_rejects_bad_item() {
    assert_eq!(ItemQuery::parse("item=x").unwrap_err(), QueryError::InvalidItem);
    assert_eq!(ItemQuery::parse("item=").unwrap_err(), QueryError::InvalidItem);
    assert_eq!(ItemQuery::parse("item=-1").unwrap_err(), QueryError::InvalidItem);
    assert_eq!(ItemQuery::parse("item=1&item=2").unwrap_err(), QueryError::InvalidItem);
    assert_eq!(
        ItemQuery::parse("item=99999999999999999999999").unwrap_err(),
        QueryError::InvalidItem
    );
}
