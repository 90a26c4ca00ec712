//! The home page.

use crate::response::{html_page, html_response, HttpResponse};
use vstd::prelude::*;

verus! {

/// Serves the home page, whose text is `page`.
pub fn home(page: &str) -> (response: HttpResponse)
    ensures
        response@ == html_response(page@),
{
    html_page(page)
}

} // verus!
