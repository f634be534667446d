//! Images built on the operator's machine and how the deployment overlay
//! refers to them.

use vstd::prelude::*;
use crate::context::DeployContext;
use crate::text::str_eq;

verus! {

/// A service whose image is given by tag instead of being built on the host.
#[derive(Debug)]
pub struct ImageService {
    pub name: String,
    pub image: String,
}

/// The services with a build directive, each with the image tag of this
/// release: `(service, <app>-<service>:<release>)`.
pub fn built_services(ctx: &DeployContext, names: &Vec<String>) -> (r: Vec<(String, String)>)
    ensures
        r@.len() == names@.len(),
        forall|i: int| 0 <= i < names@.len() ==> (#[trigger] r@[i]).0@ == names@[i]@ && r@[i].1@
            == ctx.config.app.name@ + "-"@ + names@[i]@ + ":"@ + ctx.release.name@,
{
    let mut r: Vec<(String, String)> = Vec::new();
    let mut i: usize = 0;
    while i < names.len()
        invariant
            i <= names@.len(),
            r@.len() == i,
            forall|j: int| 0 <= j < i ==> (#[trigger] r@[j]).0@ == names@[j]@ && r@[j].1@
                == ctx.config.app.name@ + "-"@ + names@[j]@ + ":"@ + ctx.release.name@,
        decreases names@.len() - i,
    {
        let image = ctx.image_name_for(names[i].as_str());
        r.push((names[i].clone(), image));
        i = i + 1;
    }
    r
}

/// The image of the primary service (the first entry for it), if it was
/// built locally.
pub fn web_image(built: &Vec<(String, String)>, web_service: &str) -> (r: Option<String>)
    ensures
        match r {
            Some(img) => exists|i: int| {
                &&& 0 <= i < built@.len()
                &&& (#[trigger] built@[i]).0@ == web_service@
                &&& img@ == built@[i].1@
                &&& forall|j: int| 0 <= j < i ==> (#[trigger] built@[j]).0@ != web_service@
            },
            None => forall|i: int| 0 <= i < built@.len() ==> (#[trigger] built@[i]).0@ != web_service@,
        },
{
    let mut i: usize = 0;
    while i < built.len()
        invariant
            i <= built@.len(),
            forall|j: int| 0 <= j < i ==> (#[trigger] built@[j]).0@ != web_service@,
        decreases built@.len() - i,
    {
        if str_eq(built[i].0.as_str(), web_service) {
            return Some(built[i].1.clone());
        }
        i = i + 1;
    }
    None
}

/// The locally built services other than the primary one, in order.
pub open spec fn other_services(built: Seq<(String, String)>, web_service: Seq<char>) -> Seq<(Seq<char>, Seq<char>)>
    decreases built.len(),
{
    if built.len() == 0 {
        seq![]
    } else {
        let rest = other_services(built.drop_last(), web_service);
        if built.last().0@ == web_service {
            rest
        } else {
            rest.push((built.last().0@, built.last().1@))
        }
    }
}

/// The locally built services other than the primary one, in order, as
/// image references for the overlay.
pub fn image_services(built: &Vec<(String, String)>, web_service: &str) -> (r: Vec<ImageService>)
    ensures
        r@.len() == other_services(built@, web_service@).len(),
        forall|i: int| 0 <= i < r@.len() ==> ((#[trigger] r@[i]).name@, r@[i].image@) == other_services(built@, web_service@)[i],
{
    let mut r: Vec<ImageService> = Vec::new();
    let mut i: usize = 0;
    while i < built.len()
        invariant
            i <= built@.len(),
            r@.len() == other_services(built@.subrange(0, i as int), web_service@).len(),
            forall|j: int| 0 <= j < r@.len() ==> ((#[trigger] r@[j]).name@, r@[j].image@) == other_services(built@.subrange(0, i as int), web_service@)[j],
        decreases built@.len() - i,
    {
        assert(built@.subrange(0, i + 1).drop_last() =~= built@.subrange(0, i as int));
        if !str_eq(built[i].0.as_str(), web_service) {
            r.push(ImageService { name: built[i].0.clone(), image: built[i].1.clone() });
        }
        i = i + 1;
    }
    assert(built@.subrange(0, built@.len() as int) =~= built@);
    r
}

} // verus!
