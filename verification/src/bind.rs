//! Where the callback server listens.

use crate::outside::white_space;
use crate::text::{decimal, decimal_text, join3, join_all, joined, opt_view, to_chars, views};
use vstd::prelude::*;

verus! {

/// A text without the white space at its beginning.
pub open spec fn without_leading_space(s: Seq<char>) -> Seq<char>
    decreases s.len(),
{
    if s.len() > 0 && white_space(s[0]) {
        without_leading_space(s.drop_first())
    } else {
        s
    }
}

/// A text without the white space at its end.
pub open spec fn without_trailing_space(s: Seq<char>) -> Seq<char>
    decreases s.len(),
{
    if s.len() > 0 && white_space(s.last()) {
        without_trailing_space(s.drop_last())
    } else {
        s
    }
}

/// A text without the white space around it.
pub open spec fn trimmed(s: Seq<char>) -> Seq<char> {
    without_trailing_space(without_leading_space(s))
}

/// The host to listen on: the one that is configured, unless it is blank, or else
/// this machine alone.
pub open spec fn bind_host(configured: Option<Seq<char>>) -> Seq<char> {
    match configured {
        Some(host) => if trimmed(host).len() > 0 {
            trimmed(host)
        } else {
            "127.0.0.1"@
        },
        None => "127.0.0.1"@,
    }
}

/// Takes the white space away from around a text.
pub fn trim_text<'a>(s: &'a str) -> (r: &'a str)
    ensures
        r@ == trimmed(s@),
{
    let v = to_chars(s);
    let mut i: usize = 0;
    assert(s@.skip(0) == s@);
    while i < v.len() && v[i].is_whitespace()
        invariant
            v@ == s@,
            i <= v.len(),
            without_leading_space(s@.skip(i as int)) == without_leading_space(s@),
        decreases v.len() - i,
    {
        assert(s@.skip(i as int).drop_first() == s@.skip(i + 1));
        i += 1;
    }
    let ghost t = without_leading_space(s@);
    assert(t == s@.skip(i as int));
    let mut n: usize = v.len();
    assert(s@.subrange(i as int, n as int) == t);
    while n > i && v[n - 1].is_whitespace()
        invariant
            v@ == s@,
            i <= n <= v.len(),
            without_trailing_space(s@.subrange(i as int, n as int)) == without_trailing_space(t),
        decreases n,
    {
        assert(s@.subrange(i as int, n as int).drop_last() == s@.subrange(i as int, n - 1));
        n -= 1;
    }
    s.substring_char(i, n)
}

/// The host to listen on, given the one that is configured.
pub fn callback_bind_host(configured: Option<&str>) -> (r: String)
    ensures
        r@ == bind_host(opt_view(configured)),
{
    if let Some(host) = configured {
        let host = trim_text(host);
        if !host.is_empty() {
            return host.to_owned();
        }
    }
    "127.0.0.1".to_owned()
}

/// What to do after a number of ports could not be bound.
#[derive(Debug)]
pub enum PortStep {
    /// Try this port.
    Try(u16),
    /// Give up, with this message.
    Exhausted(String),
}

/// What to do after a number of ports could not be bound, as sequences of characters.
pub enum PortStepView {
    Try(u16),
    Exhausted(Seq<char>),
}

impl View for PortStep {
    type V = PortStepView;

    open spec fn view(&self) -> PortStepView {
        match *self {
            PortStep::Try(port) => PortStepView::Try(port),
            PortStep::Exhausted(message) => PortStepView::Exhausted(message@),
        }
    }
}

/// A list of ports as it is shown in a message.
pub open spec fn port_list(ports: Seq<u16>) -> Seq<char> {
    "["@ + joined(ports.map_values(|p: u16| decimal(p as nat)), ", "@) + "]"@
}

/// The step after `failed` ports could not be bound: the next one in the list, or
/// giving up where there is none.
pub open spec fn port_step(ports: Seq<u16>, failed: int) -> PortStepView {
    if failed < ports.len() {
        PortStepView::Try(ports[failed])
    } else {
        PortStepView::Exhausted("Kiro SSO 回调端口均被占用 "@ + port_list(ports))
    }
}

/// A list of ports as it is shown in a message.
fn show_ports(ports: &[u16]) -> (r: String)
    ensures
        r@ == port_list(ports@),
{
    let mut shown: Vec<String> = Vec::new();
    let mut i: usize = 0;
    while i < ports.len()
        invariant
            i <= ports.len(),
            shown.len() == i,
            forall|j: int| 0 <= j < i ==> (#[trigger] shown@[j])@ == decimal(ports@[j] as nat),
        decreases ports.len() - i,
    {
        shown.push(decimal_text(ports[i] as usize));
        i += 1;
    }
    assert(views(shown@) =~= ports@.map_values(|p: u16| decimal(p as nat)));
    join3("[", join_all(&shown, ", ").as_str(), "]")
}

/// The step after `failed` ports could not be bound.
pub fn next_port(ports: &[u16], failed: usize) -> (r: PortStep)
    ensures
        r@ == port_step(ports@, failed as int),
{
    if failed < ports.len() {
        PortStep::Try(ports[failed])
    } else {
        let mut message = "Kiro SSO 回调端口均被占用 ".to_owned();
        message.append(show_ports(ports).as_str());
        PortStep::Exhausted(message)
    }
}

proof fn lemma_leading(s: Seq<char>)
    ensures
        without_leading_space(s).len() > 0 ==> !white_space(without_leading_space(s)[0]),
    decreases s.len(),
{
    if s.len() > 0 && white_space(s[0]) {
        lemma_leading(s.drop_first());
    }
}

proof fn lemma_trailing(s: Seq<char>)
    ensures
        without_trailing_space(s).len() > 0 ==> {
            &&& !white_space(without_trailing_space(s).last())
            &&& without_trailing_space(s)[0] == s[0]
        },
    decreases s.len(),
{
    if s.len() > 0 && white_space(s.last()) {
        lemma_trailing(s.drop_last());
    }
}

/// The host to listen on is never blank, and has no white space around it.
pub proof fn law_bind_host_is_clean(configured: Option<Seq<char>>)
    ensures
        bind_host(configured).len() > 0,
        !white_space(bind_host(configured)[0]),
        !white_space(bind_host(configured).last()),
{
    reveal_strlit("127.0.0.1");
    if let Some(host) = configured {
        lemma_leading(host);
        lemma_trailing(without_leading_space(host));
    }
}

proof fn lemma_skips_leading(space: Seq<char>, s: Seq<char>)
    requires
        forall|i: int| 0 <= i < space.len() ==> white_space(#[trigger] space[i]),
    ensures
        without_leading_space(space + s) == without_leading_space(s),
    decreases space.len(),
{
    let t = space + s;
    if space.len() > 0 {
        assert(white_space(space[0]));
        assert(t[0] == space[0]);
        assert(t.drop_first() =~= space.drop_first() + s);
        lemma_skips_leading(space.drop_first(), s);
    } else {
        assert(t =~= s);
    }
}

proof fn lemma_skips_trailing(s: Seq<char>, space: Seq<char>)
    requires
        forall|i: int| 0 <= i < space.len() ==> white_space(#[trigger] space[i]),
    ensures
        without_trailing_space(s + space) == without_trailing_space(s),
    decreases space.len(),
{
    let t = s + space;
    if space.len() > 0 {
        assert(white_space(space[space.len() - 1]));
        assert(t.last() == space.last());
        assert(t.drop_last() =~= s + space.drop_last());
        lemma_skips_trailing(s, space.drop_last());
    } else {
        assert(t =~= s);
    }
}

/// A host that is configured is listened on, without the white space around it and
/// otherwise as it is.
pub proof fn law_configured_host_is_used(before: Seq<char>, host: Seq<char>, after: Seq<char>)
    requires
        forall|i: int| 0 <= i < before.len() ==> white_space(#[trigger] before[i]),
        forall|i: int| 0 <= i < after.len() ==> white_space(#[trigger] after[i]),
        host.len() > 0,
        !white_space(host[0]),
        !white_space(host.last()),
    ensures
        bind_host(Some(before + host + after)) == host,
        trimmed(before + host + after) == host,
{
    assert(before + host + after =~= before + (host + after));
    lemma_skips_leading(before, host + after);
    assert((host + after)[0] == host[0]);
    lemma_skips_trailing(host, after);
}

/// Where no host is configured, or nothing but white space, the server listens on this
/// machine alone.
pub proof fn law_no_host_is_this_machine(blank: Seq<char>)
    requires
        forall|i: int| 0 <= i < blank.len() ==> white_space(#[trigger] blank[i]),
    ensures
        bind_host(None) == "127.0.0.1"@,
        bind_host(Some(blank)) == "127.0.0.1"@,
        trimmed(blank) == Seq::<char>::empty(),
{
    let none = Seq::<char>::empty();
    lemma_skips_leading(blank, none);
    assert(blank + none =~= blank);
    assert(without_leading_space(none) == none);
    assert(trimmed(blank) == none);
}

/// The ports are tried in their order, each once; behind the last one comes a message
/// that lists them all.
pub proof fn law_ports_are_tried_in_order(ports: Seq<u16>, failed: int)
    requires
        0 <= failed,
    ensures
        failed < ports.len() ==> port_step(ports, failed) == PortStepView::Try(ports[failed]),
        failed >= ports.len() ==> port_step(ports, failed) == PortStepView::Exhausted(
            "Kiro SSO 回调端口均被占用 "@ + "["@ + joined(
                Seq::new(ports.len(), |i: int| decimal(ports[i] as nat)),
                ", "@,
            ) + "]"@,
        ),
{
    let shown = ports.map_values(|p: u16| decimal(p as nat));
    assert(shown =~= Seq::new(ports.len(), |i: int| decimal(ports[i] as nat)));
    assert("Kiro SSO 回调端口均被占用 "@ + ("["@ + joined(shown, ", "@) + "]"@)
        =~= "Kiro SSO 回调端口均被占用 "@ + "["@ + joined(shown, ", "@) + "]"@);
}

} // verus!
