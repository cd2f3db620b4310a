//! Navigation state of the component gallery.
//!
//! The gallery shows one page at a time, picked from a fixed catalog; each
//! page has a stable key, a label and, for some, a count badge. The scene
//! surface is a separate choice of the scenes window.
use vstd::prelude::*;

verus! {

/// Which gallery page is showing.
#[derive(Debug, Clone, Copy, PartialEq, Eq, Structural)]
pub enum Page {
    Workbench,
    Terminal,
    Review,
    Command,
    Settings,
    Foundations,
    Stress,
}

/// Which scene the scenes window is showing.
#[derive(Debug, Clone, Copy, PartialEq, Eq, Structural)]
pub enum GallerySurface {
    Terminal,
    Review,
    Command,
    Settings,
    Foundations,
    Stress,
}

/// The label of `page`.
pub open spec fn label_of(page: Page) -> Seq<char> {
    match page {
        Page::Workbench => "Workbench"@,
        Page::Terminal => "Terminal Hub"@,
        Page::Review => "Review Desk"@,
        Page::Command => "Command Center"@,
        Page::Settings => "Settings"@,
        Page::Foundations => "Foundation Lab"@,
        Page::Stress => "Stress Lab"@,
    }
}

/// The stable key of `page`.
pub open spec fn key_of(page: Page) -> Seq<char> {
    match page {
        Page::Workbench => "studio-workbench"@,
        Page::Terminal => "studio-terminal"@,
        Page::Review => "studio-review"@,
        Page::Command => "studio-command"@,
        Page::Settings => "studio-settings"@,
        Page::Foundations => "studio-foundations"@,
        Page::Stress => "studio-stress"@,
    }
}

/// The count badge of `page`, if it has one.
pub open spec fn count_of(page: Page) -> Option<usize> {
    match page {
        Page::Review => Some(3),
        Page::Command => Some(4),
        Page::Stress => Some(9),
        _ => None,
    }
}

/// The gallery's navigation state.
pub struct GalleryApp {
    page: Page,
}

impl GalleryApp {
    /// The page showing.
    pub closed spec fn spec_page(&self) -> Page {
        self.page
    }

    /// A gallery showing the workbench page.
    pub fn new() -> (g: Self)
        ensures
            g.spec_page() == Page::Workbench,
    {
        GalleryApp { page: Page::Workbench }
    }

    /// The page showing.
    pub fn page(&self) -> (p: Page)
        ensures
            p == self.spec_page(),
    {
        self.page
    }

    /// Show `page`.
    pub fn set_page(&mut self, page: Page)
        ensures
            final(self).spec_page() == page,
    {
        self.page = page;
    }

    /// Whether `page` is the page showing.
    pub fn is_selected(&self, page: Page) -> (b: bool)
        ensures
            b == (self.spec_page() == page),
    {
        self.page == page
    }

    /// The label of the page showing.
    pub fn page_label(&self) -> (s: &'static str)
        ensures
            s@ == label_of(self.spec_page()),
    {
        page_label_for(self.page)
    }
}

/// The label of `page`.
pub fn page_label_for(page: Page) -> (s: &'static str)
    ensures
        s@ == label_of(page),
{
    match page {
        Page::Workbench => "Workbench",
        Page::Terminal => "Terminal Hub",
        Page::Review => "Review Desk",
        Page::Command => "Command Center",
        Page::Settings => "Settings",
        Page::Foundations => "Foundation Lab",
        Page::Stress => "Stress Lab",
    }
}

/// The stable key of `page`.
pub fn page_key(page: Page) -> (s: &'static str)
    ensures
        s@ == key_of(page),
{
    match page {
        Page::Workbench => "studio-workbench",
        Page::Terminal => "studio-terminal",
        Page::Review => "studio-review",
        Page::Command => "studio-command",
        Page::Settings => "studio-settings",
        Page::Foundations => "studio-foundations",
        Page::Stress => "studio-stress",
    }
}

/// The count badge of `page`, if it has one.
pub fn page_count(page: Page) -> (n: Option<usize>)
    ensures
        n == count_of(page),
{
    match page {
        Page::Review => Some(3),
        Page::Command => Some(4),
        Page::Stress => Some(9),
        _ => None,
    }
}

/// The catalog's pages, in order.
pub fn catalog_pages() -> (pages: Vec<Page>)
    ensures
        pages@ == seq![
            Page::Workbench,
            Page::Terminal,
            Page::Review,
            Page::Command,
            Page::Settings,
            Page::Foundations,
            Page::Stress,
        ],
{
    let pages = vec![
        Page::Workbench,
        Page::Terminal,
        Page::Review,
        Page::Command,
        Page::Settings,
        Page::Foundations,
        Page::Stress,
    ];
    proof {
        assert(pages@ =~= seq![
            Page::Workbench,
            Page::Terminal,
            Page::Review,
            Page::Command,
            Page::Settings,
            Page::Foundations,
            Page::Stress,
        ]);
    }
    pages
}

} // verus!
