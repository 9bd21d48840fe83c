//! The landing page served on the bare domain, and dispatch of a routed
//! request to its handler.

use vstd::prelude::*;
use vstd::string::StrSliceExecFns;
use vstd::string::StringExecFns;
use crate::handler::{occurs_here, resolution, resolve, Response};
use crate::request::{header_value, AppState, Context, Request};
use crate::router::{Handler, Router};

verus! {

/// `t` with every occurrence of `p`, read left to right without overlap,
/// replaced by `v`.
pub open spec fn rendered(t: Seq<char>, p: Seq<char>, v: Seq<char>) -> Seq<char>
    decreases t.len(),
{
    if t.len() == 0 {
        Seq::empty()
    } else if p.len() > 0 && p.len() <= t.len() && t.take(p.len() as int) == p {
        v + rendered(t.skip(p.len() as int), p, v)
    } else {
        seq![t[0]] + rendered(t.skip(1), p, v)
    }
}

/// The body sent to a request that carries query parameters.
pub open spec fn ack_msg() -> Seq<char> {
    "OK"@
}

/// The body sent when the landing template could not be read.
pub open spec fn internal_error_msg() -> Seq<char> {
    "Internal server error"@
}

/// Whether the request carries query parameters.
pub open spec fn has_query(req: Request) -> bool {
    match req.query {
        Some(q) => q@.len() > 0,
        None => false,
    }
}

/// The landing handler's status and body; `{{version}}` in the template
/// stands for the version string: an acknowledgment for a request
/// with query parameters, else the template rendered with the version, or
/// 500 when there is no template.
pub open spec fn landing_response(ctx: Context, template: Option<Seq<char>>) -> (u16, Seq<char>) {
    if has_query(ctx.spec_req()) {
        (200, ack_msg())
    } else {
        match template {
            Some(t) => (200, rendered(t, "{{version}}"@, ctx.spec_state().version@)),
            None => (500, internal_error_msg()),
        }
    }
}

/// Status and body of `handler`'s response to the request in `ctx`.
pub open spec fn handler_response(handler: Handler, ctx: Context, template: Option<Seq<char>>) -> (u16, Seq<char>) {
    match handler {
        Handler::Resolve => resolution(
            ctx.spec_state().guids@,
            ctx.spec_state().suffix@,
            header_value(ctx.spec_req().headers_spec(), "host"@),
        ),
        Handler::Landing => landing_response(ctx, template),
        Handler::NotFound => (404, Seq::empty()),
    }
}

/// Replaces every occurrence of `placeholder` in `template`, left to right,
/// by `value`.
pub fn render(template: &str, placeholder: &str, value: &str) -> (r: String)
    ensures
        r@ == rendered(template@, placeholder@, value@),
{
    let n = template.unicode_len();
    let pn = placeholder.unicode_len();
    let mut out = String::new();
    let mut i: usize = 0;
    assert(template@.skip(0) =~= template@);
    assert(out@ + rendered(template@, placeholder@, value@) =~= rendered(template@, placeholder@, value@));
    while i < n
        invariant
            n == template@.len(),
            pn == placeholder@.len(),
            i <= n,
            out@ + rendered(template@.skip(i as int), placeholder@, value@)
                == rendered(template@, placeholder@, value@),
        decreases n - i,
    {
        let ghost rest = template@.skip(i as int);
        if pn > 0 && pn <= n - i && occurs_here(template, placeholder, i, n, pn) {
            assert(rest.take(pn as int) =~= template@.subrange(i as int, i + pn));
            assert(rest.skip(pn as int) =~= template@.skip(i + pn));
            out.append(value);
            i = i + pn;
        } else {
            if pn > 0 && pn <= n - i {
                assert(rest.take(pn as int) =~= template@.subrange(i as int, i + pn));
            }
            let one = template.substring_char(i, i + 1);
            assert(one@ =~= seq![rest[0]]);
            assert(rest.skip(1) =~= template@.skip(i + 1));
            out.append(one);
            i = i + 1;
        }
        assert(out@ + rendered(template@.skip(i as int), placeholder@, value@)
            =~= rendered(template@, placeholder@, value@));
    }
    assert(template@.skip(n as int) =~= Seq::<char>::empty());
    assert(out@ + Seq::<char>::empty() =~= out@);
    out
}

/// Whether the request carries query parameters.
pub fn query_present(req: &Request) -> (r: bool)
    ensures
        r == has_query(*req),
{
    match &req.query {
        Some(q) => q.unicode_len() > 0,
        None => false,
    }
}

/// Whether `handler` needs the landing template to answer the request.
pub fn wants_template(handler: Handler, ctx: &Context) -> (r: bool)
    ensures
        r == (handler == Handler::Landing && !has_query(ctx.spec_req())),
{
    handler == Handler::Landing && !query_present(ctx.req())
}

/// The landing page: an acknowledgment for a request with query
/// parameters; else the template with the version put in its place, or an
/// internal error when the template could not be read.
pub fn landing(ctx: &Context, template: Option<&str>) -> (r: Response)
    ensures
        (r.status, r.body@) == landing_response(*ctx, match template {
            Some(t) => Some(t@),
            None => None,
        }),
{
    if query_present(ctx.req()) {
        return Response { status: 200, body: String::from_str("OK") };
    }
    match template {
        Some(t) => Response { status: 200, body: render(t, "{{version}}", ctx.state().version.as_str()) },
        None => Response { status: 500, body: String::from_str("Internal server error") },
    }
}

/// Runs `handler` on the request in `ctx`.
pub fn respond(handler: Handler, ctx: &Context, template: Option<&str>) -> (r: Response)
    ensures
        (r.status, r.body@) == handler_response(handler, *ctx, match template {
            Some(t) => Some(t@),
            None => None,
        }),
{
    match handler {
        Handler::Resolve => resolve(ctx),
        Handler::Landing => landing(ctx, template),
        Handler::NotFound => Response { status: 404, body: String::new() },
    }
}

/// Routes the request and runs the handler it leads to, with the
/// parameters its route bound.
pub fn serve(router: &Router, state: AppState, req: Request, template: Option<&str>) -> (r: Response)
    ensures
        exists|c: Context| c.spec_state() == state && c.spec_req() == req
            && (r.status, r.body@) == handler_response(router.route_spec(req.path@, req.method@), c, match template {
                Some(t) => Some(t@),
                None => None,
            }),
{
    let found = router.route(req.path.as_str(), req.method.as_str());
    let ctx = Context::new(state, req, found.params);
    respond(found.handler, &ctx, template)
}

} // verus!
