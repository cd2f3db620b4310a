use relay::keyed::KeyedSubViews;

#[derive(Clone, Debug, PartialEq, Eq)]
struct Item {
    id: u64,
    label: String,
}

impl Item {
    fn new(id: u64, label: impl Into<String>) -> Self {
        Self {
            id,
            label: label.into(),
        }
    }
}

/// A row view: its label and a stable identity standing for its entity.
#[derive(Clone, Debug, PartialEq, Eq)]
struct RowView {
    label: String,
    entity: usize,
}

/// Sync `rows` with `items` the way a host does: build rows for new keys,
/// then refresh the reused ones.
fn sync(rows: &mut KeyedSubViews<RowView>, items: &[Item], next_entity: &mut usize) {
    let keys: Vec<u64> = items.iter().map(|item| item.id).collect();
    let built: Vec<Option<RowView>> = items
        .iter()
        .map(|item| {
            if rows.contains_key(item.id) {
                None
            } else {
                *next_entity += 1;
                Some(RowView {
                    label: item.label.clone(),
                    entity: *next_entity,
                })
            }
        })
        .collect();
    rows.sync(&keys, built);
}

fn row_ids(rows: &KeyedSubViews<RowView>) -> Vec<(u64, usize)> {
    rows.entries()
        .iter()
        .map(|entry| (*entry.key(), entry.view().entity))
        .collect()
}

#[test]
fn sync_reuses_entities_when_items_reorder_and_remove() {
    let mut next_entity = 0;
    let mut rows = KeyedSubViews::<RowView>::new();
    sync(
        &mut rows,
        &[Item::new(1, "one"), Item::new(2, "two"), Item::new(3, "three")],
        &mut next_entity,
    );

    let first_ids = row_ids(&rows);

    sync(&mut rows, &[Item::new(3, "three"), Item::new(1, "one")], &mut next_entity);

    assert_eq!(
        row_ids(&rows),
        vec![(3, first_ids[2].1), (1, first_ids[0].1)]
    );
}

#[test]
fn sync_reports_reused_rows_and_builds_new_ones() {
    let mut rows = KeyedSubViews::<&'static str>::new();
    let reused = rows.sync(&vec![1, 2], vec![Some("a"), Some("b")]);
    assert_eq!(reused, vec![false, false]);
    let reused = rows.sync(&vec![2, 3], vec![None, Some("c")]);
    assert_eq!(reused, vec![true, false]);
    assert_eq!(rows.get(2), Some(&"b"));
    assert_eq!(rows.get(1), None);
    assert_eq!(rows.len(), 2);
    rows.clear();
    assert!(rows.is_empty());
}
