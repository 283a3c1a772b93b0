//! Where Tor stores the cookie of its control port.

use vstd::prelude::*;

use crate::text::{text_of, texts};

verus! {

/// A list of paths, each as its parts.
pub open spec fn paths(list: Seq<Vec<String>>) -> Seq<Seq<Seq<char>>> {
    Seq::new(list.len(), |i: int| texts(list[i]@))
}

/// The parts that lead from the directory of a Tor Browser to its cookie.
pub open spec fn browser_tail() -> Seq<Seq<char>> {
    seq![
        "Tor Browser"@,
        "Browser"@,
        "TorBrowser"@,
        "Data"@,
        "Tor"@,
        "control_auth_cookie"@,
    ]
}

/// Where the cookie may be, given the directory of application data.
pub open spec fn appdata_paths(appdata: Option<Seq<char>>) -> Seq<Seq<Seq<char>>> {
    match appdata {
        Some(base) => seq![
            seq![base, "tor"@, "control_auth_cookie"@],
            seq![base] + browser_tail(),
        ],
        None => seq![],
    }
}

/// Where the cookie may be, given the directory of local application data.
pub open spec fn localappdata_paths(localappdata: Option<Seq<char>>) -> Seq<Seq<Seq<char>>> {
    match localappdata {
        Some(base) => seq![seq![base] + browser_tail()],
        None => seq![],
    }
}

/// Where the cookie may be, given the directory of the user.
pub open spec fn userprofile_paths(userprofile: Option<Seq<char>>) -> Seq<Seq<Seq<char>>> {
    match userprofile {
        Some(base) => seq![
            seq![base, "Desktop"@] + browser_tail(),
            seq![base, "OneDrive"@, "Desktop"@] + browser_tail(),
            seq![base, "OneDrive"@, "Masaüstü"@] + browser_tail(),
        ],
        None => seq![],
    }
}

/// Where the cookie is looked for, in this order.
pub open spec fn cookie_paths(
    appdata: Option<Seq<char>>,
    localappdata: Option<Seq<char>>,
    userprofile: Option<Seq<char>>,
) -> Seq<Seq<Seq<char>>> {
    appdata_paths(appdata) + localappdata_paths(localappdata) + userprofile_paths(userprofile)
        + seq![seq!["control_auth_cookie"@]]
}

/// The path of the cookie of a Tor Browser, whose directory is in the directory with the given
/// parts.
fn browser_path(parts: Vec<String>) -> (res: Vec<String>)
    ensures
        texts(res@) == texts(parts@) + browser_tail(),
{
    let mut path = parts;
    path.push("Tor Browser".to_owned());
    path.push("Browser".to_owned());
    path.push("TorBrowser".to_owned());
    path.push("Data".to_owned());
    path.push("Tor".to_owned());
    path.push("control_auth_cookie".to_owned());
    proof {
        assert(texts(path@) =~= texts(parts@) + browser_tail());
    }
    path
}

/// Adds a path to a list of paths.
fn push_path(list: &mut Vec<Vec<String>>, path: Vec<String>)
    ensures
        paths(final(list)@) == paths(old(list)@).push(texts(path@)),
{
    list.push(path);
    proof {
        assert(paths(list@) =~= paths(old(list)@).push(texts(path@)));
    }
}

/// Where the cookie is looked for, in this order, each path as its parts.
pub fn candidate_cookie_paths(
    appdata: Option<&str>,
    localappdata: Option<&str>,
    userprofile: Option<&str>,
) -> (res: Vec<Vec<String>>)
    ensures
        paths(res@) == cookie_paths(
            text_of(appdata),
            text_of(localappdata),
            text_of(userprofile),
        ),
{
    let mut list: Vec<Vec<String>> = Vec::new();
    if let Some(base) = appdata {
        let plain: Vec<String> = vec![
            base.to_owned(),
            "tor".to_owned(),
            "control_auth_cookie".to_owned(),
        ];
        let parts: Vec<String> = vec![base.to_owned()];
        proof {
            assert(texts(plain@) =~= seq![base@, "tor"@, "control_auth_cookie"@]);
            assert(texts(parts@) =~= seq![base@]);
        }
        push_path(&mut list, plain);
        push_path(&mut list, browser_path(parts));
    }
    proof {
        assert(paths(list@) =~= appdata_paths(text_of(appdata)));
    }
    if let Some(base) = localappdata {
        let parts: Vec<String> = vec![base.to_owned()];
        proof {
            assert(texts(parts@) =~= seq![base@]);
        }
        push_path(&mut list, browser_path(parts));
    }
    proof {
        assert(paths(list@) =~= appdata_paths(text_of(appdata)) + localappdata_paths(
            text_of(localappdata),
        ));
    }
    let ghost before = paths(list@);
    if let Some(base) = userprofile {
        let desktop: Vec<String> = vec![base.to_owned(), "Desktop".to_owned()];
        let shared: Vec<String> = vec![
            base.to_owned(),
            "OneDrive".to_owned(),
            "Desktop".to_owned(),
        ];
        let turkish: Vec<String> = vec![
            base.to_owned(),
            "OneDrive".to_owned(),
            "Masaüstü".to_owned(),
        ];
        proof {
            assert(texts(desktop@) =~= seq![base@, "Desktop"@]);
            assert(texts(shared@) =~= seq![base@, "OneDrive"@, "Desktop"@]);
            assert(texts(turkish@) =~= seq![base@, "OneDrive"@, "Masaüstü"@]);
        }
        push_path(&mut list, browser_path(desktop));
        push_path(&mut list, browser_path(shared));
        push_path(&mut list, browser_path(turkish));
    }
    proof {
        assert(paths(list@) =~= before + userprofile_paths(text_of(userprofile)));
    }
    let here: Vec<String> = vec!["control_auth_cookie".to_owned()];
    proof {
        assert(texts(here@) =~= seq!["control_auth_cookie"@]);
    }
    push_path(&mut list, here);
    proof {
        assert(paths(list@) =~= before + userprofile_paths(text_of(userprofile)) + seq![
            seq!["control_auth_cookie"@],
        ]);
    }
    list
}

/// The text that tells the user that no cookie was found.
pub fn no_cookie_message() -> (res: &'static str)
    ensures
        res@
            == "Tor control kimlik dogrulamasi gerekiyor ama cookie bulunamadi. Tor Browser veya Tor Expert Bundle calisiyor mu?"@,
{
    "Tor control kimlik dogrulamasi gerekiyor ama cookie bulunamadi. Tor Browser veya Tor Expert Bundle calisiyor mu?"
}

/// Each directory that is known adds its own places, and no other: without one of them the list is
/// the same but for these.
pub proof fn each_directory_adds_its_places(
    appdata: Option<Seq<char>>,
    localappdata: Option<Seq<char>>,
    userprofile: Option<Seq<char>>,
)
    ensures
        cookie_paths(None, None, None) == seq![seq!["control_auth_cookie"@]],
        cookie_paths(appdata, localappdata, userprofile) == cookie_paths(
            appdata,
            None,
            None,
        ).drop_last() + cookie_paths(None, localappdata, None).drop_last() + cookie_paths(
            None,
            None,
            userprofile,
        ),
        cookie_paths(appdata, localappdata, userprofile).last() == seq!["control_auth_cookie"@],
{
    assert(cookie_paths(None, None, None) =~= seq![seq!["control_auth_cookie"@]]);
    assert(cookie_paths(appdata, None, None).drop_last() =~= appdata_paths(appdata));
    assert(cookie_paths(None, localappdata, None).drop_last() =~= localappdata_paths(
        localappdata,
    ));
    assert(cookie_paths(None, None, userprofile) =~= userprofile_paths(userprofile) + seq![
        seq!["control_auth_cookie"@],
    ]);
    assert(cookie_paths(appdata, localappdata, userprofile) =~= cookie_paths(
        appdata,
        None,
        None,
    ).drop_last() + cookie_paths(None, localappdata, None).drop_last() + cookie_paths(
        None,
        None,
        userprofile,
    ));
}

/// The places under a directory start with that directory, whatever its path, and end with the file
/// of the cookie.
pub proof fn places_lie_under_their_directory(base: Seq<char>)
    ensures
        cookie_paths(Some(base), None, None).len() == 3,
        cookie_paths(None, Some(base), None).len() == 2,
        cookie_paths(None, None, Some(base)).len() == 4,
        forall|i: int|
            0 <= i < 2 ==> {
                let path = #[trigger] cookie_paths(Some(base), None, None)[i];
                path[0] == base && path.last() == "control_auth_cookie"@
            },
        cookie_paths(Some(base), None, None)[0] == seq![base, "tor"@, "control_auth_cookie"@],
        cookie_paths(Some(base), None, None)[1] == cookie_paths(None, Some(base), None)[0],
        cookie_paths(None, Some(base), None)[0] == seq![
            base,
            "Tor Browser"@,
            "Browser"@,
            "TorBrowser"@,
            "Data"@,
            "Tor"@,
            "control_auth_cookie"@,
        ],
        cookie_paths(None, None, Some(base))[0] == seq![base, "Desktop"@] + cookie_paths(
            None,
            Some(base),
            None,
        )[0].skip(1),
        cookie_paths(None, None, Some(base))[1] == seq![base, "OneDrive"@, "Desktop"@]
            + cookie_paths(None, Some(base), None)[0].skip(1),
        cookie_paths(None, None, Some(base))[2] == seq![base, "OneDrive"@, "Masaüstü"@]
            + cookie_paths(None, Some(base), None)[0].skip(1),
{
    let browser = seq![base] + browser_tail();
    assert(browser =~= seq![
        base,
        "Tor Browser"@,
        "Browser"@,
        "TorBrowser"@,
        "Data"@,
        "Tor"@,
        "control_auth_cookie"@,
    ]);
    assert(browser.skip(1) =~= browser_tail());
    assert(cookie_paths(None, Some(base), None)[0] == browser);
}

/// The view of a list of paths holds every part of every path, in its place.
pub proof fn the_view_holds_paths_whole(list: Seq<Vec<String>>)
    ensures
        paths(list).len() == list.len(),
        forall|i: int, k: int|
            0 <= i < list.len() && 0 <= k < list[i]@.len() ==> #[trigger] paths(list)[i][k]
                == list[i]@[k]@,
        forall|i: int| 0 <= i < list.len() ==> #[trigger] paths(list)[i].len() == list[i]@.len(),
{
}

} // verus!
