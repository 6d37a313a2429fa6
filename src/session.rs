use vstd::prelude::*;

verus! {

/// The application's settings: the page to show.
pub struct App {
    url: String,
}

impl App {
    /// The page's URL.
    pub closed spec fn url_view(&self) -> Seq<char> {
        self.url@
    }

    pub fn new(url: String) -> (app: App)
        ensures
            app.url_view() == url@,
    {
        App { url }
    }

    /// The page's URL.
    pub fn url(&self) -> (u: &str)
        ensures
            u@ == self.url_view(),
    {
        self.url.as_str()
    }
}

} // verus!
