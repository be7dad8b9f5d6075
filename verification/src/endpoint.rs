use vstd::prelude::*;

verus! {

/// The transport kinds a peer can be reached over.
#[derive(Clone, Copy, Debug, PartialEq, Eq, Structural)]
pub enum EndpointProto {
    Tcp,
    Udp,
    Bp,
}

/// A transport address: a kind tag plus a transport-specific address string.
/// Its canonical, wire-embeddable text form is `"<kind> <address>"`.
#[derive(Clone, Debug, PartialEq)]
pub struct Endpoint {
    pub proto: EndpointProto,
    pub endpoint: String,
}

/// Mathematical image of an `Endpoint`.
#[verifier::ext_equal]
pub struct EndpointV {
    pub proto: EndpointProto,
    pub endpoint: Seq<char>,
}

impl View for Endpoint {
    type V = EndpointV;

    open spec fn view(&self) -> EndpointV {
        EndpointV { proto: self.proto, endpoint: self.endpoint@ }
    }
}

impl DeepView for Endpoint {
    type V = EndpointV;

    open spec fn deep_view(&self) -> EndpointV {
        self.view()
    }
}

/// The kind tag and separating space that open an endpoint's text form.
pub open spec fn proto_prefix(p: EndpointProto) -> Seq<char> {
    match p {
        EndpointProto::Tcp => "tcp "@,
        EndpointProto::Udp => "udp "@,
        EndpointProto::Bp => "bp "@,
    }
}

/// Canonical text form of an endpoint.
pub open spec fn endpoint_text(e: EndpointV) -> Seq<char> {
    proto_prefix(e.proto) + e.endpoint
}

pub open spec fn has_prefix(s: Seq<char>, p: Seq<char>) -> bool {
    p.len() <= s.len() && s.subrange(0, p.len() as int) == p
}

/// What the canonical text form parses back to: the kind named by the prefix
/// and everything after the separating space as the address.
pub open spec fn parse_endpoint(s: Seq<char>) -> Option<EndpointV> {
    if has_prefix(s, "tcp "@) {
        Some(EndpointV { proto: EndpointProto::Tcp, endpoint: s.skip(4) })
    } else if has_prefix(s, "udp "@) {
        Some(EndpointV { proto: EndpointProto::Udp, endpoint: s.skip(4) })
    } else if has_prefix(s, "bp "@) {
        Some(EndpointV { proto: EndpointProto::Bp, endpoint: s.skip(3) })
    } else {
        None
    }
}

/// Rendering an endpoint and parsing the text yields the endpoint again.
pub proof fn lemma_endpoint_text_round_trip(e: EndpointV)
    ensures
        parse_endpoint(endpoint_text(e)) == Some(e),
{
    reveal_strlit("tcp ");
    reveal_strlit("udp ");
    reveal_strlit("bp ");
    let s = endpoint_text(e);
    match e.proto {
        EndpointProto::Tcp => {
            assert(s.subrange(0, 4) =~= "tcp "@);
            assert(s.skip(4) =~= e.endpoint);
        },
        EndpointProto::Udp => {
            assert(s.subrange(0, 4) =~= "udp "@);
            assert(!has_prefix(s, "tcp "@)) by {
                if has_prefix(s, "tcp "@) {
                    assert(s.subrange(0, 4)[0] == s[0]);
                }
            }
            assert(s.skip(4) =~= e.endpoint);
        },
        EndpointProto::Bp => {
            assert(s[0] == 'b');
            assert(!has_prefix(s, "tcp "@)) by {
                if has_prefix(s, "tcp "@) {
                    assert(s.subrange(0, 4)[0] == s[0]);
                }
            }
            assert(!has_prefix(s, "udp "@)) by {
                if has_prefix(s, "udp "@) {
                    assert(s.subrange(0, 4)[0] == s[0]);
                }
            }
            assert(s.subrange(0, 3) =~= "bp "@);
            assert(s.skip(3) =~= e.endpoint);
        },
    }
}

impl Endpoint {
    /// A copy whose view equals this endpoint's view.
    pub fn duplicate(&self) -> (r: Self)
        ensures
            r@ == self@,
    {
        Endpoint { proto: self.proto, endpoint: self.endpoint.clone() }
    }

    /// Canonical `"<kind> <address>"` text form.
    pub fn to_string(&self) -> (r: String)
        ensures
            r@ == endpoint_text(self@),
    {
        let prefix: &str = match self.proto {
            EndpointProto::Tcp => "tcp ",
            EndpointProto::Udp => "udp ",
            EndpointProto::Bp => "bp ",
        };
        String::from_str(prefix).concat(self.endpoint.as_str())
    }

    /// Parses the canonical text form; any other shape is rejected.
    pub fn from_str(s: &str) -> (r: Option<Endpoint>)
        ensures
            match r {
                Some(e) => parse_endpoint(s@) == Some(e@),
                None => parse_endpoint(s@) is None,
            },
    {
        proof {
            reveal_strlit("tcp ");
            reveal_strlit("udp ");
            reveal_strlit("bp ");
        }
        let n = s.unicode_len();
        if n >= 4 && s.get_char(0) == 't' && s.get_char(1) == 'c' && s.get_char(2) == 'p'
            && s.get_char(3) == ' ' {
            proof {
                assert(s@.subrange(0, 4) =~= "tcp "@);
            }
            let addr = s.substring_char(4, n);
            Some(Endpoint { proto: EndpointProto::Tcp, endpoint: String::from_str(addr) })
        } else if n >= 4 && s.get_char(0) == 'u' && s.get_char(1) == 'd' && s.get_char(2) == 'p'
            && s.get_char(3) == ' ' {
            proof {
                assert(s@.subrange(0, 4) =~= "udp "@);
                assert(!has_prefix(s@, "tcp "@)) by {
                    if has_prefix(s@, "tcp "@) {
                        assert(s@.subrange(0, 4)[0] == s@[0]);
                    }
                }
            }
            let addr = s.substring_char(4, n);
            Some(Endpoint { proto: EndpointProto::Udp, endpoint: String::from_str(addr) })
        } else if n >= 3 && s.get_char(0) == 'b' && s.get_char(1) == 'p' && s.get_char(2) == ' ' {
            proof {
                assert(s@.subrange(0, 3) =~= "bp "@);
                assert(!has_prefix(s@, "tcp "@)) by {
                    if has_prefix(s@, "tcp "@) {
                        assert(s@.subrange(0, 4)[0] == s@[0]);
                    }
                }
                assert(!has_prefix(s@, "udp "@)) by {
                    if has_prefix(s@, "udp "@) {
                        assert(s@.subrange(0, 4)[0] == s@[0]);
                    }
                }
            }
            let addr = s.substring_char(3, n);
            Some(Endpoint { proto: EndpointProto::Bp, endpoint: String::from_str(addr) })
        } else {
            proof {
                assert(!has_prefix(s@, "tcp "@)) by {
                    if has_prefix(s@, "tcp "@) {
                        assert(forall|j: int|
                            0 <= j < 4 ==> s@.subrange(0, 4)[j] == s@[j]);
                    }
                }
                assert(!has_prefix(s@, "udp "@)) by {
                    if has_prefix(s@, "udp "@) {
                        assert(forall|j: int|
                            0 <= j < 4 ==> s@.subrange(0, 4)[j] == s@[j]);
                    }
                }
                assert(!has_prefix(s@, "bp "@)) by {
                    if has_prefix(s@, "bp "@) {
                        assert(forall|j: int|
                            0 <= j < 3 ==> s@.subrange(0, 3)[j] == s@[j]);
                    }
                }
            }
            None
        }
    }
}

} // verus!
