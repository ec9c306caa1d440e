use vstd::prelude::*;

use crate::cache::{now_millis, is_cacheable, lookup_result, lookup_state, lru_put_spec, entry_for, opt_view, Cache, EntryView, CACHE_CAPACITY};
use crate::codec::{decoded_view, wire_decodes, DnsMessage, MessageView, QuestionView};
use crate::error::UpstreamError;

verus! {

/// The decimal digits of `n`, most significant first.
pub open spec fn decimal(n: nat) -> Seq<char>
    decreases n,
{
    let d = (('0' as int) + (n % 10) as int) as char;
    if n < 10 {
        seq![d]
    } else {
        decimal(n / 10).push(d)
    }
}

/// The DNS-over-HTTPS query URL of an upstream server.
pub open spec fn upstream_url(host: Seq<char>, port: u16) -> Seq<char> {
    "https://"@ + host + ":"@ + decimal(port as nat) + "/dns-query"@
}

/// The one-character string of decimal digit `d`.
fn digit_str(d: u16) -> (r: &'static str)
    requires
        d < 10,
    ensures
        r@ == seq![(('0' as int) + d as int) as char],
{
    proof {
        reveal_strlit("0");
        reveal_strlit("1");
        reveal_strlit("2");
        reveal_strlit("3");
        reveal_strlit("4");
        reveal_strlit("5");
        reveal_strlit("6");
        reveal_strlit("7");
        reveal_strlit("8");
        reveal_strlit("9");
    }
    match d {
        0 => "0",
        1 => "1",
        2 => "2",
        3 => "3",
        4 => "4",
        5 => "5",
        6 => "6",
        7 => "7",
        8 => "8",
        _ => "9",
    }
}

/// Appends the decimal digits of `n` to `s`.
fn push_decimal(s: &mut String, n: u16)
    ensures
        final(s)@ == old(s)@ + decimal(n as nat),
    decreases n,
{
    if n >= 10 {
        push_decimal(s, n / 10);
    }
    s.append(digit_str(n % 10));
    assert(decimal(n as nat) == if n < 10 {
        seq![(('0' as int) + (n % 10) as int) as char]
    } else {
        decimal((n / 10) as nat).push((('0' as int) + (n % 10) as int) as char)
    });
    assert(s@ =~= old(s)@ + decimal(n as nat));
}

fn format_url(host: &str, port: u16) -> (r: String)
    ensures
        r@ == upstream_url(host@, port),
{
    let mut s = String::from_str("https://");
    s.append(host);
    s.append(":");
    push_decimal(&mut s, port);
    s.append("/dns-query");
    assert(s@ =~= upstream_url(host@, port));
    s
}

/// The entries after storing `m` at `now`, when it is stored at all.
pub open spec fn store_state(
    s: Seq<(QuestionView, EntryView)>,
    m: MessageView,
    now: u64,
) -> Seq<(QuestionView, EntryView)> {
    if is_cacheable(m) {
        lru_put_spec(s, CACHE_CAPACITY as nat, m.questions[0], entry_for(m, now))
    } else {
        s
    }
}

/// The cache-aware forwarding decisions towards one upstream server. The
/// HTTPS exchange is the caller's: a miss is posted to `url()` with the
/// request's encoding as body, and the response body is handed back to
/// `respond`.
pub struct HttpsClient {
    pub host: String,
    pub port: u16,
    pub cache_enabled: bool,
    pub cache: Cache,
}

impl HttpsClient {
    pub closed spec fn wf(&self) -> bool {
        self.cache.wf()
    }

    /// The cache entries, least recently used first.
    pub closed spec fn cache_items(&self) -> Seq<(QuestionView, EntryView)> {
        self.cache.items()
    }

    /// The client is well formed exactly when its cache is.
    pub proof fn lemma_wf(&self)
        ensures
            self.wf() <==> self.cache.wf(),
            self.cache_items() == self.cache.items(),
    {
    }

    /// A client for `host`:`port` with an empty cache, used only when
    /// `cache_enabled`.
    pub fn new(host: String, port: u16, cache_enabled: bool) -> (r: HttpsClient)
        ensures
            r.wf(),
            r.host == host,
            r.port == port,
            r.cache_enabled == cache_enabled,
            r.cache_items() == Seq::<(QuestionView, EntryView)>::empty(),
    {
        HttpsClient { host, port, cache_enabled, cache: Cache::new() }
    }

    /// Where requests are posted.
    pub fn url(&self) -> (r: String)
        ensures
            r@ == upstream_url(self.host@, self.port),
    {
        format_url(self.host.as_str(), self.port)
    }

    /// The cached answer to `request` at `now`, if the cache is enabled and
    /// holds a fresh one.
    pub fn lookup_at(&mut self, request: &DnsMessage, now: u64) -> (r: Option<DnsMessage>)
        requires
            old(self).wf(),
            request.wf(),
        ensures
            final(self).wf(),
            final(self).host == old(self).host,
            final(self).port == old(self).port,
            final(self).cache_enabled == old(self).cache_enabled,
            r matches Some(m) ==> m.wf(),
            !old(self).cache_enabled ==> r is None && final(self).cache_items() == old(self).cache_items(),
            old(self).cache_enabled ==> opt_view(r) == lookup_result(old(self).cache_items(), request@, now)
                && final(self).cache_items() == lookup_state(old(self).cache_items(), request@, now),
    {
        if self.cache_enabled {
            self.cache.get_at(request, now)
        } else {
            None
        }
    }

    /// As `lookup_at`, as of now.
    pub fn lookup(&mut self, request: &DnsMessage) -> (r: Option<DnsMessage>)
        requires
            old(self).wf(),
            request.wf(),
        ensures
            final(self).wf(),
            final(self).host == old(self).host,
            final(self).port == old(self).port,
            final(self).cache_enabled == old(self).cache_enabled,
            r matches Some(m) ==> m.wf(),
            !old(self).cache_enabled ==> r is None && final(self).cache_items() == old(self).cache_items(),
            old(self).cache_enabled ==> exists|now: u64|
                opt_view(r) == lookup_result(old(self).cache_items(), request@, now)
                    && final(self).cache_items() == lookup_state(old(self).cache_items(), request@, now),
    {
        let now = now_millis();
        self.lookup_at(request, now)
    }

    /// The body to post for `request`: its encoding.
    pub fn request_body(&self, request: &DnsMessage) -> (r: Vec<u8>)
        ensures
            r@ == request@.wire,
    {
        let mut body: Vec<u8> = Vec::new();
        let mut i: usize = 0;
        while i < request.wire.len()
            invariant
                i <= request.wire.len(),
                body@ =~= request.wire@.subrange(0, i as int),
            decreases request.wire.len() - i,
        {
            body.push(request.wire[i]);
            i += 1;
        }
        assert(body@ =~= request.wire@);
        body
    }

    /// Offers a decoded upstream response to the cache (it is kept only when
    /// the cache is enabled and the response has a question and an answer),
    /// and returns it.
    pub fn accept_at(&mut self, response: DnsMessage, now: u64) -> (r: DnsMessage)
        requires
            old(self).wf(),
            response.wf(),
        ensures
            final(self).wf(),
            final(self).host == old(self).host,
            final(self).port == old(self).port,
            final(self).cache_enabled == old(self).cache_enabled,
            r@ == response@,
            final(self).cache_items() == if old(self).cache_enabled {
                store_state(old(self).cache_items(), response@, now)
            } else {
                old(self).cache_items()
            },
    {
        if self.cache_enabled {
            let copy = response.duplicate();
            self.cache.put_at(copy, now);
        }
        response
    }

    /// As `respond_at`, as of now.
    pub fn respond(&mut self, raw: &[u8]) -> (r: Result<DnsMessage, UpstreamError>)
        requires
            old(self).wf(),
        ensures
            final(self).wf(),
            final(self).host == old(self).host,
            final(self).port == old(self).port,
            final(self).cache_enabled == old(self).cache_enabled,
            r is Ok <==> wire_decodes(raw@),
            r matches Err(e) ==> e == UpstreamError::Resolve && final(self).cache_items() == old(self).cache_items(),
            r matches Ok(m) ==> m.wf() && m@ == decoded_view(raw@),
            r is Ok && !old(self).cache_enabled ==> final(self).cache_items() == old(self).cache_items(),
            old(self).cache_enabled ==> (r matches Ok(m) ==> exists|now: u64|
                final(self).cache_items() == store_state(old(self).cache_items(), m@, now)),
    {
        let now = now_millis();
        let ghost before = self.cache_items();
        let r = self.respond_at(raw, now);
        assert(self.cache_enabled ==> (r matches Ok(m) ==> self.cache_items() == store_state(before, m@, now)));
        r
    }

    /// Decodes the upstream response body `raw` at time `now`; bytes that do
    /// not decode give `Resolve`, a decoded response goes through `accept_at`.
    pub fn respond_at(&mut self, raw: &[u8], now: u64) -> (r: Result<DnsMessage, UpstreamError>)
        requires
            old(self).wf(),
        ensures
            final(self).wf(),
            final(self).host == old(self).host,
            final(self).port == old(self).port,
            final(self).cache_enabled == old(self).cache_enabled,
            r is Ok <==> wire_decodes(raw@),
            r matches Err(e) ==> e == UpstreamError::Resolve && final(self).cache_items() == old(self).cache_items(),
            r matches Ok(m) ==> m.wf() && m@ == decoded_view(raw@) && final(self).cache_items() == if old(self).cache_enabled {
                store_state(old(self).cache_items(), m@, now)
            } else {
                old(self).cache_items()
            },
    {
        match DnsMessage::from_wire(raw) {
            Ok(m) => Ok(self.accept_at(m, now)),
            Err(_) => Err(UpstreamError::Resolve),
        }
    }
}

} // verus!
