use vstd::prelude::*;
use crate::error::{err, is_err_of, map_err, ErrKind, Error};
use crate::evh_config::EventHandlerConfig;
use crate::read_chain::ReadChain;
use crate::slabs::SlabStore;
use crate::text::{append_decimal, dec_chars};
use vstd::utf8::valid_utf8;

verus! {

/// The settings of a plain-text instance.
#[derive(Debug)]
pub struct PlainConfig {
    /// The domain names it serves.
    pub domainnames: Vec<String>,
}

/// The settings of a TLS instance.
#[derive(Debug)]
pub struct TlsConfig {
    /// The certificate file.
    pub cert_file: String,
    /// The private key file.
    pub privkey_file: String,
    /// The domain names it serves.
    pub domainnames: Vec<String>,
}

/// The kind of an instance.
#[derive(Debug)]
pub enum HttpInstanceType {
    /// Plain text.
    Plain(PlainConfig),
    /// TLS.
    Tls(TlsConfig),
}

/// One address and port the server listens on.
#[derive(Debug)]
pub struct HttpInstance {
    /// The port.
    pub port: u16,
    /// The address.
    pub addr: String,
    /// The size of the listen queue.
    pub listen_queue_size: usize,
    /// The directory served.
    pub http_dir: String,
    /// The kind of instance.
    pub instance_type: HttpInstanceType,
}

/// Where the parts of an HTTP request lie in the bytes read.
pub struct HttpHeaders<'a> {
    /// The offset just past the end of the headers.
    pub termination_point: usize,
    /// The offset of the start of the request.
    pub start: usize,
    /// The bytes read.
    pub req: &'a Vec<u8>,
    /// The offset of the start of the URI.
    pub start_uri: usize,
    /// The offset just past the end of the URI.
    pub end_uri: usize,
}

/// The settings of an HTTP server.
pub struct HttpConfig {
    /// The settings of its event handler.
    pub evh_config: EventHandlerConfig,
    /// The instances it serves.
    pub instances: Vec<HttpInstance>,
}

impl HttpConfig {
    /// The default settings: the default event handler and one plain instance on
    /// 127.0.0.1:8080 serving `~/.bmw/www` with a listen queue of 100.
    pub open spec fn is_default(&self) -> bool {
        &&& self.evh_config.is_default()
        &&& self.instances@.len() == 1
        &&& self.instances@[0].port == 8080
        &&& self.instances@[0].addr@ == "127.0.0.1"@
        &&& self.instances@[0].listen_queue_size == 100
        &&& self.instances@[0].http_dir@ == "~/.bmw/www"@
        &&& self.instances@[0].instance_type matches HttpInstanceType::Plain(p) && p.domainnames@.len() == 0
    }
}

impl Default for HttpConfig {
    fn default() -> (r: Self)
        ensures
            r.is_default(),
    {
        let instance = HttpInstance {
            instance_type: HttpInstanceType::Plain(PlainConfig { domainnames: Vec::new() }),
            port: 8080,
            addr: String::from_str("127.0.0.1"),
            listen_queue_size: 100,
            http_dir: String::from_str("~/.bmw/www"),
        };
        let mut instances: Vec<HttpInstance> = Vec::new();
        instances.push(instance);
        HttpConfig { evh_config: EventHandlerConfig::default(), instances }
    }
}

/// Checks that a server has something to serve: at least one instance.
pub fn check_instances(config: &HttpConfig) -> (r: Result<(), Error>)
    ensures
        r is Ok <==> config.instances@.len() > 0,
        r matches Err(e) ==> is_err_of(e, ErrKind::IllegalArgument, "At least one instance must be specified"@),
{
    if config.instances.len() == 0 {
        return Err(err(ErrKind::IllegalArgument, "At least one instance must be specified"));
    }
    Ok(())
}

/// Returns the socket address an instance listens on: its address, a colon and its port.
pub fn listen_addr(instance: &HttpInstance) -> (r: String)
    ensures
        r@ == instance.addr@ + ":"@ + dec_chars(instance.port as nat),
{
    let mut r = instance.addr.clone();
    r.append(":");
    append_decimal(&mut r, instance.port as u128);
    r
}

/// The page the server answers every request with.
pub open spec fn test_page() -> Seq<u8> {
    "HTTP/1.1 200 OK\r\nDate: Thu, 10 Nov 2022 22:31:52 GMT\r\nContent-Length: 11\r\n\r\nTest page\r\n"@.map_values(
        |c: char| c as u8,
    )
}

/// Returns the page the server answers every request with.
pub fn response_page() -> (r: Vec<u8>)
    ensures
        r@ == test_page(),
{
    let s = "HTTP/1.1 200 OK\r\nDate: Thu, 10 Nov 2022 22:31:52 GMT\r\nContent-Length: 11\r\n\r\nTest page\r\n";
    let n = s.unicode_len();
    let mut r: Vec<u8> = Vec::new();
    let mut i: usize = 0;
    while i < n
        invariant
            n == s@.len(),
            i <= n,
            r@ == s@.subrange(0, i as int).map_values(|c: char| c as u8),
        decreases n - i,
    {
        let c = s.get_char(i);
        r.push(c as u8);
        assert(s@.subrange(0, i + 1) =~= s@.subrange(0, i as int).push(c));
        assert(r@ =~= s@.subrange(0, i + 1).map_values(|c: char| c as u8));
        i = i + 1;
    }
    assert(s@.subrange(0, n as int) =~= s@);
    r
}

/// The status line of the page: `HTTP/1.1 200 OK` and a line break.
pub open spec fn ok_status_line() -> Seq<u8> {
    seq![72u8, 84u8, 84u8, 80u8, 47u8, 49u8, 46u8, 49u8, 32u8, 50u8, 48u8, 48u8, 32u8, 79u8, 75u8, 13u8, 10u8]
}

/// The page answers with a 200 status: it starts with `HTTP/1.1 200 OK` and a line break.
/// Its headers end with an empty line, after which come exactly as many bytes as its
/// `Content-Length` header says, 11.
pub proof fn law_page_is_ok_with_its_length()
    ensures
        test_page().len() >= 17,
        test_page().subrange(0, 17) == ok_status_line(),
        ({
            let p = test_page();
            let n = p.len() as int;
            let blank = n - 11 - 4;
            &&& blank >= 17
            &&& p.subrange(blank, blank + 4) == seq![13u8, 10u8, 13u8, 10u8]
            &&& p.subrange(blank - 18, blank + 2) == seq![67u8, 111u8, 110u8, 116u8, 101u8, 110u8, 116u8, 45u8, 76u8, 101u8, 110u8, 103u8, 116u8, 104u8, 58u8, 32u8, 49u8, 49u8, 13u8, 10u8]
            &&& forall|i: int| 17 <= i < blank ==> !(#[trigger] p.subrange(i, i + 4) == seq![13u8, 10u8, 13u8, 10u8])
        }),
{
    reveal_strlit("HTTP/1.1 200 OK\r\nDate: Thu, 10 Nov 2022 22:31:52 GMT\r\nContent-Length: 11\r\n\r\nTest page\r\n");
    let p = test_page();
    assert(p.len() == 87);
    assert(p.subrange(0, 17) =~= ok_status_line());
    assert(p.subrange(72, 76) =~= seq![13u8, 10u8, 13u8, 10u8]);
    assert(p.subrange(54, 74) =~= seq![67u8, 111u8, 110u8, 116u8, 101u8, 110u8, 116u8, 45u8, 76u8, 101u8, 110u8, 103u8, 116u8, 104u8, 58u8, 32u8, 49u8, 49u8, 13u8, 10u8]);
    assert forall|i: int| 17 <= i < 72 implies !(#[trigger] p.subrange(i, i + 4) == seq![13u8, 10u8, 13u8, 10u8]) by {
        if p.subrange(i, i + 4) == seq![13u8, 10u8, 13u8, 10u8] {
            assert(p.subrange(i, i + 4)[0] == p[i]);
            assert(p.subrange(i, i + 4)[2] == p[i + 2]);
        }
    }
}

/// Handles the bytes read on a connection: takes them all out of the chain, freeing its
/// slabs, and answers with the test page; bytes that are not UTF-8 are a UTF-8 error once
/// the chain is cleared.
pub fn process_on_read(chain: &mut ReadChain, slabs: &mut SlabStore) -> (r: Result<Vec<u8>, Error>)
    requires
        old(chain).wf(*old(slabs)),
    ensures
        final(chain).wf(*final(slabs)),
        final(chain).chain_ids().len() == 0,
        r is Ok <==> valid_utf8(old(chain).content(*old(slabs))),
        r matches Ok(page) ==> page@ == test_page(),
        r matches Err(e) ==> e.spec_kind().name() == ErrKind::Utf8,
{
    let bytes = chain.read_all(slabs);
    let last = chain.last_slab();
    let ghost ids = chain.chain_ids();
    proof {
        if ids.len() > 0 {
            chain.lemma_last_is_last(*slabs);
        } else {
            assert(!crate::read_chain::holds_id(ids, last as int));
        }
    }
    let _ = chain.clear_through(slabs, last);
    proof {
        if ids.len() > 0 {
            let k = ids.len() - 1;
            assert(ids[k] == last);
            assert(chain.chain_ids() =~= ids.subrange(k + 1, ids.len() as int));
        }
    }
    match crate::cell::utf8_string(bytes.as_slice()) {
        Ok(_) => Ok(response_page()),
        Err(t) => Err(map_err(ErrKind::Utf8, "Utf8 error", t.as_str())),
    }
}

} // verus!
