use relay::gallery::{GalleryApp, Page, catalog_pages, page_count, page_key, page_label_for};

#[test]
fn gallery_starts_on_workbench_and_labels_pages() {
    let mut app = GalleryApp::new();
    assert_eq!(app.page(), Page::Workbench);
    assert_eq!(app.page_label(), "Workbench");
    app.set_page(Page::Review);
    assert!(app.is_selected(Page::Review));
    assert_eq!(app.page_label(), "Review Desk");
    assert_eq!(page_label_for(Page::Foundations), "Foundation Lab");
    assert_eq!(page_key(Page::Stress), "studio-stress");
    assert_eq!(page_count(Page::Command), Some(4));
    assert_eq!(page_count(Page::Settings), None);
    assert_eq!(catalog_pages().len(), 7);
}
