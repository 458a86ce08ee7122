//! The pages around a rendered document: plain text frames with the markup
//! set in.

use vstd::prelude::*;
use vstd::string::StringExecFns;

verus! {

/// The viewer page up to the place of the markup. The script subscribes as a
/// poll session, asks once a second, and fetches the artifact whenever a new
/// generation is reported.
pub const VIEWER_HEAD: &'static str = "<!DOCTYPE html>\n\
    <html>\n\
    <head>\n\
    <meta charset=\"UTF-8\">\n\
    <title>Markdown Editor</title>\n\
    <script>\n\
    function refresh() {\n\
    fetch(\"/artifact\").then(response => response.text()).then(html => {\n\
    document.getElementById(\"preview\").innerHTML = html;\n\
    });\n\
    }\n\
    fetch(\"/subscribe\", { method: \"POST\" }).then(response => response.text()).then(session => {\n\
    setInterval(() => {\n\
    fetch(\"/poll/\" + session).then(response => {\n\
    if (response.status === 200) {\n\
    refresh();\n\
    }\n\
    });\n\
    }, 1000);\n\
    });\n\
    </script>\n\
    </head>\n\
    <body>\n\
    <div id=\"preview\">";

/// The viewer page after the markup.
pub const VIEWER_TAIL: &'static str = "</div>\n</body>\n</html>\n";

/// The artifact file up to the place of the markup. Caches are told not to
/// keep the page, and the page reloads itself when told to.
pub const ARTIFACT_HEAD: &'static str = "<!DOCTYPE html>\n\
    <html>\n\
    <head>\n\
    <meta http-equiv=\"Cache-Control\" content=\"no-cache, no-store, must-revalidate\">\n\
    <script src=\"https://cdnjs.cloudflare.com/ajax/libs/socket.io/3.1.3/socket.io.js\"></script>\n\
    <script src=\"https://cdnjs.cloudflare.com/ajax/libs/jquery/3.6.0/jquery.min.js\"></script>\n\
    <script defer>\n\
    const socket = io.connect('http://localhost:8080');\n\
    socket.on('reload', function() { location.reload(); });\n\
    </script>\n\
    </head>\n\
    <body>\n";

/// The artifact file after the markup.
pub const ARTIFACT_TAIL: &'static str = "\n</body>\n</html>";

/// `head`, then `html`, then `tail`.
fn frame(head: &str, html: &str, tail: &str) -> (page: String)
    ensures
        page@ == head@ + html@ + tail@,
{
    let mut page = String::from_str(head);
    page.append(html);
    page.append(tail);
    page
}

/// The page that shows `html` to a viewer and keeps it up to date.
pub fn viewer_page(html: &str) -> (page: String)
    ensures
        page@ == VIEWER_HEAD@ + html@ + VIEWER_TAIL@,
{
    frame(VIEWER_HEAD, html, VIEWER_TAIL)
}

/// The content of the artifact file for the markup `html`.
pub fn artifact_page(html: &str) -> (page: String)
    ensures
        page@ == ARTIFACT_HEAD@ + html@ + ARTIFACT_TAIL@,
{
    frame(ARTIFACT_HEAD, html, ARTIFACT_TAIL)
}

/// The markup can be read back out of a page: it stands between the head and
/// the tail, unchanged.
pub proof fn lemma_page_holds_markup(head: Seq<char>, html: Seq<char>, tail: Seq<char>)
    ensures
        (head + html + tail).len() == head.len() + html.len() + tail.len(),
        (head + html + tail).subrange(head.len() as int, (head.len() + html.len()) as int) == html,
        (head + html + tail).subrange(0, head.len() as int) == head,
{
    assert((head + html + tail).subrange(head.len() as int, (head.len() + html.len()) as int) =~= html);
    assert((head + html + tail).subrange(0, head.len() as int) =~= head);
}

} // verus!
