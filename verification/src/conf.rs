//! The peer-file codec: the lossless mapping between the structured
//! `Interface`/`Peer` model and the line-oriented `.conf` text the tunnel
//! daemon consumes.
//!
//! Encoding emits one `[Interface]` block followed by one `[Peer]` block
//! per peer in stored order; optional fields that are absent are omitted
//! entirely. Decoding is a single left-to-right scan over lines that never
//! fails: unknown keys are ignored and fields never assigned keep their
//! zero value, so all semantic judgement is deferred to validation.

use vstd::prelude::*;
use vstd::string::StrSliceExecFns;
use vstd::string::StringExecFns;

use crate::models::Interface;
use crate::models::InterfaceV;
use crate::models::Peer;
use crate::models::PeerV;
use crate::models::WireGuard;
use crate::textutil::dec_rep;
use crate::textutil::first_index_of;
use crate::textutil::join_with;
use crate::textutil::parse_u16;
use crate::textutil::parse_u16_spec;
use crate::textutil::spec_split;
use crate::textutil::str_eq;
use crate::textutil::str_find_char;
use crate::textutil::str_split;
use crate::textutil::str_starts_with;
use crate::textutil::str_trim;
use crate::textutil::trim_spec;
use crate::textutil::u16_string;

verus! {

/// One `key = value` line, without its newline.
pub open spec fn kv_text(k: Seq<char>, v: Seq<char>) -> Seq<char> {
    k + " = "@ + v
}

/// The `[Interface]` block: private key and address lines always, a listen
/// port line only when the port is set.
pub open spec fn encode_interface(i: InterfaceV) -> Seq<char> {
    "[Interface]"@ + "\n"@ + kv_text("PrivateKey"@, i.private_key) + "\n"@ + kv_text(
        "Address"@,
        i.address,
    ) + "\n"@ + (match i.listen_port {
        Some(p) => kv_text("ListenPort"@, dec_rep(p as int)) + "\n"@,
        None => Seq::<char>::empty(),
    })
}

/// One `[Peer]` block: public key, comma-joined allowed addresses, and an
/// endpoint line only when an endpoint is set.
pub open spec fn encode_peer(p: PeerV) -> Seq<char> {
    "[Peer]"@ + "\n"@ + kv_text("PublicKey"@, p.public_key) + "\n"@ + kv_text(
        "AllowedIPs"@,
        join_with(p.allowed_ips, ','),
    ) + "\n"@ + (match p.endpoint {
        Some(e) => kv_text("Endpoint"@, e) + "\n"@,
        None => Seq::<char>::empty(),
    })
}

/// All peer blocks in stored order, each preceded by a blank line.
pub open spec fn encode_peers(ps: Seq<PeerV>) -> Seq<char>
    decreases ps.len(),
{
    if ps.len() == 0 {
        Seq::<char>::empty()
    } else {
        "\n"@ + encode_peer(ps[0]) + encode_peers(ps.drop_first())
    }
}

/// The whole peer file: the interface block, then every peer block.
pub open spec fn encode_conf(i: InterfaceV, ps: Seq<PeerV>) -> Seq<char> {
    encode_interface(i) + encode_peers(ps)
}

/// Appending one more piece extends a join by a separator and the piece.
pub proof fn lemma_join_push(parts: Seq<Seq<char>>, x: Seq<char>, sep: char)
    ensures
        join_with(parts.push(x), sep) == (if parts.len() == 0 {
            x
        } else {
            join_with(parts, sep) + seq![sep] + x
        }),
    decreases parts.len(),
{
    let whole = parts.push(x);
    if parts.len() == 0 {
        assert(whole.len() == 1);
        assert(join_with(whole, sep) == whole[0]);
        assert(whole[0] == x);
    } else if parts.len() == 1 {
        assert(whole.len() == 2);
        assert(whole.drop_first() =~= seq![x]);
        assert(join_with(whole, sep) == whole[0] + seq![sep] + join_with(seq![x], sep));
        assert(join_with(seq![x], sep) == x);
        assert(whole[0] == parts[0]);
        assert(join_with(parts, sep) == parts[0]);
    } else {
        lemma_join_push(parts.drop_first(), x, sep);
        assert(whole.drop_first() =~= parts.drop_first().push(x));
        assert(join_with(whole, sep) == whole[0] + seq![sep] + join_with(whole.drop_first(), sep));
        assert(join_with(whole.drop_first(), sep) == join_with(parts.drop_first(), sep)
            + seq![sep] + x);
        assert(join_with(parts, sep) == parts[0] + seq![sep] + join_with(parts.drop_first(), sep));
        assert(whole[0] == parts[0]);
        assert(whole[0] + seq![sep] + (join_with(parts.drop_first(), sep) + seq![sep] + x) =~= (
        parts[0] + seq![sep] + join_with(parts.drop_first(), sep)) + seq![sep] + x);
    }
}

/// Appending one more peer extends the peer blocks by one block.
proof fn lemma_encode_peers_push(ps: Seq<PeerV>, p: PeerV)
    ensures
        encode_peers(ps.push(p)) == encode_peers(ps) + "\n"@ + encode_peer(p),
    decreases ps.len(),
{
    let whole = ps.push(p);
    if ps.len() == 0 {
        assert(whole[0] == p);
        assert(whole.drop_first() =~= Seq::<PeerV>::empty());
        assert(encode_peers(whole) == "\n"@ + encode_peer(p) + encode_peers(whole.drop_first()));
        assert(("\n"@ + encode_peer(p)) + Seq::<char>::empty() =~= Seq::<char>::empty() + "\n"@
            + encode_peer(p));
    } else {
        lemma_encode_peers_push(ps.drop_first(), p);
        assert(whole.drop_first() =~= ps.drop_first().push(p));
        assert(whole[0] == ps[0]);
        assert(encode_peers(whole) == "\n"@ + encode_peer(ps[0]) + encode_peers(
            whole.drop_first(),
        ));
        assert("\n"@ + encode_peer(ps[0]) + (encode_peers(ps.drop_first()) + "\n"@ + encode_peer(p))
            =~= ("\n"@ + encode_peer(ps[0]) + encode_peers(ps.drop_first())) + "\n"@ + encode_peer(
            p,
        ));
    }
}

/// The allowed addresses joined with commas, in order.
pub fn join_allowed_ips(ips: &Vec<String>) -> (r: String)
    ensures
        r@ == join_with(ips.deep_view(), ','),
{
    let mut out = String::new();
    let n: usize = ips.len();
    let mut k: usize = 0;
    proof {
        assert(ips.deep_view().take(0) =~= Seq::<Seq<char>>::empty());
    }
    while k < n
        invariant
            0 <= k <= n,
            n == ips.len(),
            out@ == join_with(ips.deep_view().take(k as int), ','),
        decreases n - k,
    {
        if k > 0 {
            out.append(",");
        }
        out.append(ips[k].as_str());
        proof {
            let parts = ips.deep_view();
            assert(parts.take(k + 1) =~= parts.take(k as int).push(parts[k as int]));
            lemma_join_push(parts.take(k as int), parts[k as int], ',');
            reveal_strlit(",");
            assert(","@ =~= seq![',']);
            if k == 0 {
                assert(out@ =~= join_with(parts.take(1), ','));
            } else {
                assert(out@ =~= join_with(parts.take(k + 1), ','));
            }
        }
        k = k + 1;
    }
    proof {
        assert(ips.deep_view().take(n as int) =~= ips.deep_view());
    }
    out
}

impl Interface {
    /// The text of this interface's `[Interface]` block.
    pub fn to_conf_string(&self) -> (r: String)
        ensures
            r@ == encode_interface(self@),
    {
        let mut out = String::new();
        out.append("[Interface]");
        out.append("\n");
        out.append("PrivateKey");
        out.append(" = ");
        out.append(self.private_key.as_str());
        out.append("\n");
        out.append("Address");
        out.append(" = ");
        out.append(self.address.as_str());
        out.append("\n");
        if let Some(p) = self.listen_port {
            out.append("ListenPort");
            out.append(" = ");
            let ps = u16_string(p);
            out.append(ps.as_str());
            out.append("\n");
        }
        proof {
            assert(out@ =~= encode_interface(self@));
        }
        out
    }
}

impl Peer {
    /// The text of this peer's `[Peer]` block.
    pub fn to_conf_string(&self) -> (r: String)
        ensures
            r@ == encode_peer(self@),
    {
        let mut out = String::new();
        out.append("[Peer]");
        out.append("\n");
        out.append("PublicKey");
        out.append(" = ");
        out.append(self.public_key.as_str());
        out.append("\n");
        out.append("AllowedIPs");
        out.append(" = ");
        let ips = join_allowed_ips(&self.allowed_ips);
        out.append(ips.as_str());
        out.append("\n");
        if let Some(e) = &self.endpoint {
            out.append("Endpoint");
            out.append(" = ");
            out.append(e.as_str());
            out.append("\n");
        }
        proof {
            assert(out@ =~= encode_peer(self@));
        }
        out
    }
}

impl WireGuard {
    /// The full peer-file text for this record: the interface block, then
    /// every peer block in stored order.
    pub fn to_conf_string(&self) -> (r: String)
        ensures
            r@ == encode_conf(self@.interface, self@.peers),
    {
        let mut out = self.interface.to_conf_string();
        let n: usize = self.peers.len();
        let mut k: usize = 0;
        proof {
            assert(self@.peers.take(0) =~= Seq::<PeerV>::empty());
            assert(out@ =~= encode_conf(self@.interface, self@.peers.take(0)));
        }
        while k < n
            invariant
                0 <= k <= n,
                n == self.peers.len(),
                out@ == encode_conf(self@.interface, self@.peers.take(k as int)),
            decreases n - k,
        {
            out.append("\n");
            let block = self.peers[k].to_conf_string();
            out.append(block.as_str());
            proof {
                let ps = self@.peers;
                assert(ps.take(k + 1) =~= ps.take(k as int).push(ps[k as int]));
                lemma_encode_peers_push(ps.take(k as int), ps[k as int]);
                assert(out@ =~= encode_conf(self@.interface, ps.take(k + 1)));
            }
            k = k + 1;
        }
        proof {
            assert(self@.peers.take(n as int) =~= self@.peers);
        }
        out
    }
}

/// Which section the line scan is currently inside.
#[derive(Debug, Clone, Copy, PartialEq, Eq, Structural)]
pub enum ConfSection {
    Outside,
    InInterface,
    InPeer,
}

/// The scan state: the interface accumulator, the peers gathered so far
/// (the last one is the open accumulator), and the current section.
#[verifier::ext_equal]
pub struct DecodeState {
    pub interface: InterfaceV,
    pub peers: Seq<PeerV>,
    pub section: ConfSection,
}

/// An interface with every field at its zero value.
pub open spec fn zero_interface() -> InterfaceV {
    InterfaceV { private_key: Seq::<char>::empty(), address: Seq::<char>::empty(), listen_port: None }
}

/// A peer with every field at its zero value.
pub open spec fn zero_peer() -> PeerV {
    PeerV { public_key: Seq::<char>::empty(), allowed_ips: Seq::<Seq<char>>::empty(), endpoint: None }
}

/// The state before any line has been read.
pub open spec fn decode_init() -> DecodeState {
    DecodeState { interface: zero_interface(), peers: Seq::<PeerV>::empty(), section: ConfSection::Outside }
}

/// A trimmed line that opens an interface section.
pub open spec fn is_interface_header(t: Seq<char>) -> bool {
    "[Interface"@.is_prefix_of(t)
}

/// A trimmed line that opens a new peer section.
pub open spec fn is_peer_header(t: Seq<char>) -> bool {
    "[Peer"@.is_prefix_of(t)
}

/// The effect of a recognised key on the interface accumulator; unknown
/// keys change nothing.
pub open spec fn apply_interface_key(i: InterfaceV, key: Seq<char>, value: Seq<char>) -> InterfaceV {
    if key == "PrivateKey"@ {
        InterfaceV { private_key: value, ..i }
    } else if key == "Address"@ {
        InterfaceV { address: value, ..i }
    } else if key == "ListenPort"@ {
        InterfaceV { listen_port: parse_u16_spec(value), ..i }
    } else {
        i
    }
}

/// The effect of a recognised key on the open peer accumulator; unknown
/// keys change nothing.
pub open spec fn apply_peer_key(p: PeerV, key: Seq<char>, value: Seq<char>) -> PeerV {
    if key == "PublicKey"@ {
        PeerV { public_key: value, ..p }
    } else if key == "AllowedIPs"@ {
        PeerV { allowed_ips: spec_split(value, ','), ..p }
    } else if key == "Endpoint"@ {
        PeerV { endpoint: Some(value), ..p }
    } else {
        p
    }
}

/// The effect of one line on the scan state: a header switches or opens a
/// section, a `key = value` line assigns into the current accumulator, and
/// everything else is ignored.
pub open spec fn decode_line(st: DecodeState, line: Seq<char>) -> DecodeState {
    let t = trim_spec(line);
    if is_interface_header(t) {
        DecodeState { section: ConfSection::InInterface, ..st }
    } else if is_peer_header(t) {
        DecodeState { peers: st.peers.push(zero_peer()), section: ConfSection::InPeer, ..st }
    } else {
        let e = first_index_of(t, '=');
        if e == t.len() {
            st
        } else {
            let key = trim_spec(t.take(e));
            let value = trim_spec(t.skip(e + 1));
            match st.section {
                ConfSection::Outside => st,
                ConfSection::InInterface => DecodeState {
                    interface: apply_interface_key(st.interface, key, value),
                    ..st
                },
                ConfSection::InPeer => {
                    if st.peers.len() > 0 {
                        DecodeState {
                            peers: st.peers.update(
                                st.peers.len() - 1,
                                apply_peer_key(st.peers.last(), key, value),
                            ),
                            ..st
                        }
                    } else {
                        st
                    }
                },
            }
        }
    }
}

/// The scan state after reading every line in order.
pub open spec fn decode_lines(st: DecodeState, lines: Seq<Seq<char>>) -> DecodeState
    decreases lines.len(),
{
    if lines.len() == 0 {
        st
    } else {
        decode_lines(decode_line(st, lines[0]), lines.drop_first())
    }
}

/// The scan state a whole text decodes to.
pub open spec fn spec_decode(text: Seq<char>) -> DecodeState {
    decode_lines(decode_init(), spec_split(text, '\n'))
}

/// Reading one more line applies its effect to the folded state.
pub proof fn lemma_decode_lines_snoc(st: DecodeState, lines: Seq<Seq<char>>, l: Seq<char>)
    ensures
        decode_lines(st, lines.push(l)) == decode_line(decode_lines(st, lines), l),
    decreases lines.len(),
{
    let whole = lines.push(l);
    if lines.len() == 0 {
        assert(whole[0] == l);
        assert(whole.drop_first() =~= Seq::<Seq<char>>::empty());
        assert(decode_lines(decode_line(st, l), Seq::<Seq<char>>::empty()) == decode_line(st, l));
        assert(decode_lines(st, whole) == decode_lines(decode_line(st, whole[0]),
            whole.drop_first()));
        assert(decode_lines(st, lines) == st);
    } else {
        assert(whole[0] == lines[0]);
        assert(whole.drop_first() =~= lines.drop_first().push(l));
        lemma_decode_lines_snoc(decode_line(st, lines[0]), lines.drop_first(), l);
    }
}

/// Reading a concatenation of line runs is reading one after the other.
pub proof fn lemma_decode_lines_append(st: DecodeState, a: Seq<Seq<char>>, b: Seq<Seq<char>>)
    ensures
        decode_lines(st, a + b) == decode_lines(decode_lines(st, a), b),
    decreases a.len(),
{
    if a.len() == 0 {
        assert(a + b =~= b);
    } else {
        assert((a + b)[0] == a[0]);
        assert((a + b).drop_first() =~= a.drop_first() + b);
        lemma_decode_lines_append(decode_line(st, a[0]), a.drop_first(), b);
    }
}

/// Decode a peer-file text: one left-to-right scan over its lines. Total:
/// every text yields an interface and a peer list, with unmatched fields
/// left at their zero values.
pub fn decode_conf(text: &str) -> (r: (Interface, Vec<Peer>))
    ensures
        r.0@ == spec_decode(text@).interface,
        r.1.deep_view() == spec_decode(text@).peers,
{
    let lines = str_split(text, '\n');
    let mut interface = Interface {
        private_key: String::new(),
        address: String::new(),
        listen_port: None,
    };
    let mut peers: Vec<Peer> = Vec::new();
    let mut section = ConfSection::Outside;
    let n: usize = lines.len();
    let mut k: usize = 0;
    proof {
        assert(lines.deep_view().take(0) =~= Seq::<Seq<char>>::empty());
        assert(peers.deep_view() =~= Seq::<PeerV>::empty());
    }
    while k < n
        invariant
            0 <= k <= n,
            n == lines.len(),
            lines.deep_view() == spec_split(text@, '\n'),
            interface@ == decode_lines(decode_init(), lines.deep_view().take(k as int)).interface,
            peers.deep_view() == decode_lines(decode_init(), lines.deep_view().take(k as int)).peers,
            section == decode_lines(decode_init(), lines.deep_view().take(k as int)).section,
        decreases n - k,
    {
        let ghost st = decode_lines(decode_init(), lines.deep_view().take(k as int));
        let ghost line = lines.deep_view()[k as int];
        let ghost st2 = decode_line(st, line);
        proof {
            assert(lines.deep_view().take(k + 1) =~= lines.deep_view().take(k as int).push(line));
            lemma_decode_lines_snoc(decode_init(), lines.deep_view().take(k as int), line);
            assert(line == lines@[k as int]@);
        }
        let t = str_trim(lines[k].as_str());
        proof {
            assert(t@ == trim_spec(line));
        }
        if str_starts_with(t.as_str(), "[Interface") {
            section = ConfSection::InInterface;
            proof {
                assert(interface@ =~~= st2.interface);
                assert(peers.deep_view() =~~= st2.peers);
                assert(section == st2.section);
            }
        } else if str_starts_with(t.as_str(), "[Peer") {
            peers.push(Peer {
                public_key: String::new(),
                allowed_ips: Vec::new(),
                endpoint: None,
            });
            section = ConfSection::InPeer;
            proof {
                assert(interface@ =~~= st2.interface);
                assert(peers.deep_view() =~~= st2.peers);
                assert(section == st2.section);
            }
        } else {
            let tn: usize = t.as_str().unicode_len();
            let e = str_find_char(t.as_str(), '=');
            if e < tn {
                let key = str_trim(t.as_str().substring_char(0, e));
                let value = str_trim(t.as_str().substring_char(e + 1, tn));
                proof {
                    assert(t@.take(e as int) =~= t@.subrange(0, e as int));
                    assert(t@.skip(e + 1) =~= t@.subrange(e + 1, tn as int));
                    assert(key@ == trim_spec(t@.take(e as int)));
                    assert(value@ == trim_spec(t@.skip(e + 1)));
                }
                match section {
                    ConfSection::Outside => {
                        proof {
                            assert(interface@ =~~= st2.interface);
                            assert(peers.deep_view() =~~= st2.peers);
                            assert(section == st2.section);
                        }
                    },
                    ConfSection::InInterface => {
                        if str_eq(key.as_str(), "PrivateKey") {
                            interface.private_key = value;
                        } else if str_eq(key.as_str(), "Address") {
                            interface.address = value;
                        } else if str_eq(key.as_str(), "ListenPort") {
                            interface.listen_port = parse_u16(value.as_str());
                        }
                        proof {
                            assert(interface@ =~~= st2.interface);
                            assert(peers.deep_view() =~~= st2.peers);
                            assert(section == st2.section);
                        }
                    },
                    ConfSection::InPeer => {
                        let popped = peers.pop();
                        match popped {
                            Some(mut p) => {
                                if str_eq(key.as_str(), "PublicKey") {
                                    p.public_key = value;
                                } else if str_eq(key.as_str(), "AllowedIPs") {
                                    p.allowed_ips = str_split(value.as_str(), ',');
                                } else if str_eq(key.as_str(), "Endpoint") {
                                    p.endpoint = Some(value);
                                }
                                peers.push(p);
                                proof {
                                    assert(peers.deep_view() =~~= st2.peers);
                                }
                            },
                            None => {},
                        }
                        proof {
                            assert(interface@ =~~= st2.interface);
                            assert(peers.deep_view() =~~= st2.peers);
                            assert(section == st2.section);
                        }
                    },
                }
            } else {
                proof {
                    assert(st2 == st);
                }
            }
        }
        proof {
            assert(interface@ == st2.interface);
            assert(peers.deep_view() == st2.peers);
            assert(section == st2.section);
        }
        k = k + 1;
    }
    proof {
        assert(lines.deep_view().take(n as int) =~= lines.deep_view());
    }
    (interface, peers)
}

impl WireGuard {
    /// Replace this record's interface and peer set with the ones decoded
    /// from the given peer-file text, leaving every other field as it was.
    pub fn load_from_wireguard_file(self, conf_text: &str) -> (r: WireGuard)
        ensures
            r@.interface == spec_decode(conf_text@).interface,
            r@.peers == spec_decode(conf_text@).peers,
            r@.created_at == self@.created_at,
            r@.uuid == self@.uuid,
            r@.device_uuid == self@.device_uuid,
            r@.api_url == self@.api_url,
            r@.file == self@.file,
            r@.wireguard_file == self@.wireguard_file,
    {
        let (interface, peers) = decode_conf(conf_text);
        WireGuard { interface, peers, ..self }
    }
}

/// The logical lines of the interface block, in order.
pub open spec fn interface_lines(i: InterfaceV) -> Seq<Seq<char>> {
    seq!["[Interface]"@, kv_text("PrivateKey"@, i.private_key), kv_text("Address"@, i.address)]
        + (match i.listen_port {
        Some(p) => seq![kv_text("ListenPort"@, dec_rep(p as int))],
        None => Seq::<Seq<char>>::empty(),
    })
}

/// The logical lines of one peer block: the separating blank line, the
/// header, then the key lines.
pub open spec fn peer_lines(p: PeerV) -> Seq<Seq<char>> {
    seq![
        Seq::<char>::empty(),
        "[Peer]"@,
        kv_text("PublicKey"@, p.public_key),
        kv_text("AllowedIPs"@, join_with(p.allowed_ips, ',')),
    ] + (match p.endpoint {
        Some(e) => seq![kv_text("Endpoint"@, e)],
        None => Seq::<Seq<char>>::empty(),
    })
}

/// The logical lines of all peer blocks, in order.
pub open spec fn peers_lines(ps: Seq<PeerV>) -> Seq<Seq<char>>
    decreases ps.len(),
{
    if ps.len() == 0 {
        Seq::<Seq<char>>::empty()
    } else {
        peer_lines(ps[0]) + peers_lines(ps.drop_first())
    }
}

/// The logical lines of a whole encoded peer file.
pub open spec fn conf_lines(i: InterfaceV, ps: Seq<PeerV>) -> Seq<Seq<char>> {
    interface_lines(i) + peers_lines(ps)
}

/// Each line followed by a newline, concatenated.
pub open spec fn lines_text(ls: Seq<Seq<char>>) -> Seq<char>
    decreases ls.len(),
{
    if ls.len() == 0 {
        Seq::<char>::empty()
    } else {
        ls[0] + "\n"@ + lines_text(ls.drop_first())
    }
}

proof fn lemma_lines_text_append(a: Seq<Seq<char>>, b: Seq<Seq<char>>)
    ensures
        lines_text(a + b) == lines_text(a) + lines_text(b),
    decreases a.len(),
{
    if a.len() == 0 {
        assert(a + b =~= b);
        assert(lines_text(a) + lines_text(b) =~= lines_text(b));
    } else {
        lemma_lines_text_append(a.drop_first(), b);
        assert((a + b)[0] == a[0]);
        assert((a + b).drop_first() =~= a.drop_first() + b);
        assert(a[0] + "\n"@ + (lines_text(a.drop_first()) + lines_text(b)) =~= (a[0] + "\n"@
            + lines_text(a.drop_first())) + lines_text(b));
    }
}

/// The encoded interface block is exactly its lines, newline-terminated.
proof fn lemma_encode_interface_lines(i: InterfaceV)
    ensures
        encode_interface(i) == lines_text(interface_lines(i)),
{
    reveal_with_fuel(lines_text, 6);
    let base = seq!["[Interface]"@, kv_text("PrivateKey"@, i.private_key),
        kv_text("Address"@, i.address)];
    match i.listen_port {
        Some(p) => {
            let ls = interface_lines(i);
            assert(ls =~= seq!["[Interface]"@, kv_text("PrivateKey"@, i.private_key),
                kv_text("Address"@, i.address), kv_text("ListenPort"@, dec_rep(p as int))]);
            assert(ls.drop_first() =~= seq![kv_text("PrivateKey"@, i.private_key),
                kv_text("Address"@, i.address), kv_text("ListenPort"@, dec_rep(p as int))]);
            assert(ls.drop_first().drop_first() =~= seq![kv_text("Address"@, i.address),
                kv_text("ListenPort"@, dec_rep(p as int))]);
            assert(ls.drop_first().drop_first().drop_first() =~= seq![kv_text("ListenPort"@,
                dec_rep(p as int))]);
            assert(ls.drop_first().drop_first().drop_first().drop_first()
                =~= Seq::<Seq<char>>::empty());
            assert(encode_interface(i) =~= lines_text(ls));
        },
        None => {
            let ls = interface_lines(i);
            assert(ls =~= base);
            assert(ls.drop_first() =~= seq![kv_text("PrivateKey"@, i.private_key),
                kv_text("Address"@, i.address)]);
            assert(ls.drop_first().drop_first() =~= seq![kv_text("Address"@, i.address)]);
            assert(ls.drop_first().drop_first().drop_first() =~= Seq::<Seq<char>>::empty());
            assert(encode_interface(i) =~= lines_text(ls));
        },
    }
}

/// One encoded peer block, with its leading blank line, is exactly its
/// lines, newline-terminated.
proof fn lemma_encode_peer_lines(p: PeerV)
    ensures
        "\n"@ + encode_peer(p) == lines_text(peer_lines(p)),
{
    reveal_with_fuel(lines_text, 7);
    let ls = peer_lines(p);
    match p.endpoint {
        Some(e) => {
            assert(ls =~= seq![Seq::<char>::empty(), "[Peer]"@,
                kv_text("PublicKey"@, p.public_key),
                kv_text("AllowedIPs"@, join_with(p.allowed_ips, ',')),
                kv_text("Endpoint"@, e)]);
            assert(ls.drop_first() =~= seq!["[Peer]"@, kv_text("PublicKey"@, p.public_key),
                kv_text("AllowedIPs"@, join_with(p.allowed_ips, ',')), kv_text("Endpoint"@, e)]);
            assert(ls.drop_first().drop_first() =~= seq![kv_text("PublicKey"@, p.public_key),
                kv_text("AllowedIPs"@, join_with(p.allowed_ips, ',')), kv_text("Endpoint"@, e)]);
            assert(ls.drop_first().drop_first().drop_first() =~= seq![
                kv_text("AllowedIPs"@, join_with(p.allowed_ips, ',')), kv_text("Endpoint"@, e)]);
            assert(ls.drop_first().drop_first().drop_first().drop_first() =~= seq![
                kv_text("Endpoint"@, e)]);
            assert(ls.drop_first().drop_first().drop_first().drop_first().drop_first()
                =~= Seq::<Seq<char>>::empty());
            assert("\n"@ + encode_peer(p) =~= lines_text(ls));
        },
        None => {
            assert(ls =~= seq![Seq::<char>::empty(), "[Peer]"@,
                kv_text("PublicKey"@, p.public_key),
                kv_text("AllowedIPs"@, join_with(p.allowed_ips, ','))]);
            assert(ls.drop_first() =~= seq!["[Peer]"@, kv_text("PublicKey"@, p.public_key),
                kv_text("AllowedIPs"@, join_with(p.allowed_ips, ','))]);
            assert(ls.drop_first().drop_first() =~= seq![kv_text("PublicKey"@, p.public_key),
                kv_text("AllowedIPs"@, join_with(p.allowed_ips, ','))]);
            assert(ls.drop_first().drop_first().drop_first() =~= seq![
                kv_text("AllowedIPs"@, join_with(p.allowed_ips, ','))]);
            assert(ls.drop_first().drop_first().drop_first().drop_first()
                =~= Seq::<Seq<char>>::empty());
            assert("\n"@ + encode_peer(p) =~= lines_text(ls));
        },
    }
}

/// The encoded peer blocks are exactly their lines, newline-terminated.
proof fn lemma_encode_peers_lines(ps: Seq<PeerV>)
    ensures
        encode_peers(ps) == lines_text(peers_lines(ps)),
    decreases ps.len(),
{
    if ps.len() == 0 {
    } else {
        lemma_encode_peers_lines(ps.drop_first());
        lemma_encode_peer_lines(ps[0]);
        lemma_lines_text_append(peer_lines(ps[0]), peers_lines(ps.drop_first()));
        assert("\n"@ + encode_peer(ps[0]) + encode_peers(ps.drop_first()) =~= ("\n"@ + encode_peer(
            ps[0],
        )) + encode_peers(ps.drop_first()));
    }
}

/// The whole encoded file is exactly its lines, newline-terminated.
pub proof fn lemma_encode_conf_lines(i: InterfaceV, ps: Seq<PeerV>)
    ensures
        encode_conf(i, ps) == lines_text(conf_lines(i, ps)),
{
    lemma_encode_interface_lines(i);
    lemma_encode_peers_lines(ps);
    lemma_lines_text_append(interface_lines(i), peers_lines(ps));
}

/// Splitting a newline-free line plus a newline off the front of a text.
proof fn lemma_split_line(l: Seq<char>, rest: Seq<char>)
    requires
        !l.contains('\n'),
    ensures
        spec_split(l + "\n"@ + rest, '\n') == seq![l] + spec_split(rest, '\n'),
{
    reveal_strlit("\n");
    assert("\n"@ =~= seq!['\n']);
    let whole = l + "\n"@ + rest;
    assert(whole =~= l + (seq!['\n'] + rest));
    crate::textutil::lemma_first_index_concat(l, seq!['\n'] + rest, '\n');
    crate::textutil::lemma_first_index_from_props(seq!['\n'] + rest, '\n', 0);
    let k = l.len() as int;
    assert(first_index_of(whole, '\n') == k);
    crate::textutil::lemma_split_at_first(whole, '\n');
    assert(whole.take(k) =~= l);
    assert(whole.skip(k + 1) =~= rest);
    assert(spec_split(whole, '\n') =~= seq![l] + spec_split(rest, '\n'));
}

/// A newline-terminated line list splits back into its lines, plus the
/// empty piece after the final newline.
proof fn lemma_split_lines_text(ls: Seq<Seq<char>>)
    requires
        forall|j: int| 0 <= j < ls.len() ==> !(#[trigger] ls[j]).contains('\n'),
    ensures
        spec_split(lines_text(ls), '\n') == ls + seq![Seq::<char>::empty()],
    decreases ls.len(),
{
    if ls.len() == 0 {
        assert(spec_split(Seq::<char>::empty(), '\n') =~= seq![Seq::<char>::empty()]);
        assert(ls + seq![Seq::<char>::empty()] =~= seq![Seq::<char>::empty()]);
    } else {
        lemma_split_lines_text(ls.drop_first());
        lemma_split_line(ls[0], lines_text(ls.drop_first()));
        assert(lines_text(ls) == ls[0] + "\n"@ + lines_text(ls.drop_first()));
        assert(seq![ls[0]] + (ls.drop_first() + seq![Seq::<char>::empty()]) =~= ls + seq![
            Seq::<char>::empty(),
        ]);
    }
}

/// What the known keys satisfy: non-empty, not bracketed, and free of
/// whitespace, separators, and newlines.
pub open spec fn keyword_ok(k: Seq<char>) -> bool {
    &&& k.len() > 0
    &&& k[0] != '['
    &&& forall|j: int|
        0 <= j < k.len() ==> !crate::textutil::is_space_char(#[trigger] k[j]) && k[j] != '='
            && k[j] != '\n'
}

proof fn lemma_keywords_ok()
    ensures
        keyword_ok("PrivateKey"@),
        keyword_ok("Address"@),
        keyword_ok("ListenPort"@),
        keyword_ok("PublicKey"@),
        keyword_ok("AllowedIPs"@),
        keyword_ok("Endpoint"@),
        "PrivateKey"@ != "Address"@,
        "PrivateKey"@ != "ListenPort"@,
        "Address"@ != "ListenPort"@,
        "PublicKey"@ != "AllowedIPs"@,
        "PublicKey"@ != "Endpoint"@,
        "AllowedIPs"@ != "Endpoint"@,
{
    reveal_strlit("PrivateKey");
    reveal_strlit("Address");
    reveal_strlit("ListenPort");
    reveal_strlit("PublicKey");
    reveal_strlit("AllowedIPs");
    reveal_strlit("Endpoint");
    assert(("PrivateKey"@)[0] == 'P' && ("ListenPort"@)[0] == 'L');
    assert(("PublicKey"@)[0] == 'P' && ("AllowedIPs"@)[0] == 'A');
}

proof fn lemma_header_facts()
    ensures
        !"[Interface]"@.contains('\n'),
        trim_spec("[Interface]"@) == "[Interface]"@,
        is_interface_header("[Interface]"@),
        !"[Peer]"@.contains('\n'),
        trim_spec("[Peer]"@) == "[Peer]"@,
        !is_interface_header("[Peer]"@),
        is_peer_header("[Peer]"@),
        trim_spec(Seq::<char>::empty()) == Seq::<char>::empty(),
        !is_interface_header(Seq::<char>::empty()),
        !is_peer_header(Seq::<char>::empty()),
        first_index_of(Seq::<char>::empty(), '=') == 0,
{
    reveal_strlit("[Interface]");
    reveal_strlit("[Interface");
    reveal_strlit("[Peer]");
    reveal_strlit("[Peer");
    let hi = "[Interface]"@;
    let hp = "[Peer]"@;
    assert(!hi.contains('\n')) by {
        if hi.contains('\n') {
            let w = choose|w: int| 0 <= w < hi.len() && hi[w] == '\n';
            assert(false);
        }
    }
    assert(!hp.contains('\n')) by {
        if hp.contains('\n') {
            let w = choose|w: int| 0 <= w < hp.len() && hp[w] == '\n';
            assert(false);
        }
    }
    crate::textutil::lemma_trim_range(hi, 0, hi.len() as int);
    assert(hi.subrange(0, hi.len() as int) =~= hi);
    crate::textutil::lemma_trim_range(hp, 0, hp.len() as int);
    assert(hp.subrange(0, hp.len() as int) =~= hp);
    assert(hi.take(10) =~= "[Interface"@);
    assert(is_interface_header(hi));
    assert(hp.take(5) =~= "[Peer"@);
    assert(is_peer_header(hp));
    assert(!is_interface_header(hp)) by {
        if "[Interface"@.is_prefix_of(hp) {
            assert(hp.take(10) =~= "[Interface"@);
            assert(false);
        }
    }
}

/// How the scan reads a `key = value` line built from a known key and a
/// clean value: it is no header, and the key and value come back exactly.
proof fn lemma_kv_line(k: Seq<char>, v: Seq<char>)
    requires
        keyword_ok(k),
        crate::textutil::clean_value(v),
    ensures
        !kv_text(k, v).contains('\n'),
        !is_interface_header(trim_spec(kv_text(k, v))),
        !is_peer_header(trim_spec(kv_text(k, v))),
        first_index_of(trim_spec(kv_text(k, v)), '=') < trim_spec(kv_text(k, v)).len(),
        trim_spec(
            trim_spec(kv_text(k, v)).take(first_index_of(trim_spec(kv_text(k, v)), '=')),
        ) == k,
        trim_spec(
            trim_spec(kv_text(k, v)).skip(first_index_of(trim_spec(kv_text(k, v)), '=') + 1),
        ) == v,
{
    reveal_strlit(" = ");
    reveal_strlit("[Interface");
    reveal_strlit("[Peer");
    assert(" = "@ =~= seq![' ', '=', ' ']);
    let l = kv_text(k, v);
    let kl = k.len() as int;
    assert(l =~= k + seq![' ', '=', ' '] + v);
    assert(!l.contains('\n')) by {
        if l.contains('\n') {
            let w = choose|w: int| 0 <= w < l.len() && l[w] == '\n';
            if w < kl {
                assert(l[w] == k[w]);
                assert(false);
            } else if w < kl + 3 {
                assert(false);
            } else {
                assert(l[w] == v[w - kl - 3]);
                assert(v.contains('\n'));
                assert(false);
            }
        }
    }
    if v.len() > 0 {
        crate::textutil::lemma_clean_endpoints(v);
        assert(l[0] == k[0]);
        assert(l.last() == v.last());
        crate::textutil::lemma_trim_range(l, 0, l.len() as int);
        assert(l.subrange(0, l.len() as int) =~= l);
        let t = trim_spec(l);
        assert(t == l);
        assert(!(k + seq![' ']).contains('=')) by {
            if (k + seq![' ']).contains('=') {
                let w = choose|w: int|
                    0 <= w < (k + seq![' ']).len() && (k + seq![' '])[w] == '=';
                if w < kl {
                    assert((k + seq![' '])[w] == k[w]);
                }
                assert(false);
            }
        }
        assert(l =~= (k + seq![' ']) + (seq!['='] + (seq![' '] + v)));
        crate::textutil::lemma_first_index_concat(k + seq![' '], seq!['='] + (seq![' '] + v), '=');
        crate::textutil::lemma_first_index_from_props(seq!['='] + (seq![' '] + v), '=', 0);
        let e = first_index_of(t, '=');
        assert(e == kl + 1);
        assert(e < t.len());
        assert(t.take(e) =~= k + seq![' ']);
        crate::textutil::lemma_trim_range(k + seq![' '], 0, kl);
        assert((k + seq![' ']).subrange(0, kl) =~= k);
        assert(t.skip(e + 1) =~= seq![' '] + v);
        crate::textutil::lemma_trim_range(seq![' '] + v, 1, 1 + v.len() as int);
        assert((seq![' '] + v).subrange(1, 1 + v.len() as int) =~= v);
        assert(!is_interface_header(t)) by {
            if "[Interface"@.is_prefix_of(t) {
                assert(t[0] == ("[Interface"@)[0]);
                assert(t[0] == k[0]);
                assert(false);
            }
        }
        assert(!is_peer_header(t)) by {
            if "[Peer"@.is_prefix_of(t) {
                assert(t[0] == ("[Peer"@)[0]);
                assert(t[0] == k[0]);
                assert(false);
            }
        }
    } else {
        assert(v =~= Seq::<char>::empty());
        assert(l =~= k + seq![' ', '=', ' ']);
        assert(l[0] == k[0]);
        crate::textutil::lemma_trim_range(l, 0, kl + 2);
        let t = trim_spec(l);
        assert(t =~= l.subrange(0, kl + 2));
        assert(t =~= k + seq![' ', '=']);
        assert(!(k + seq![' ']).contains('=')) by {
            if (k + seq![' ']).contains('=') {
                let w = choose|w: int|
                    0 <= w < (k + seq![' ']).len() && (k + seq![' '])[w] == '=';
                if w < kl {
                    assert((k + seq![' '])[w] == k[w]);
                }
                assert(false);
            }
        }
        assert(t =~= (k + seq![' ']) + seq!['=']);
        crate::textutil::lemma_first_index_concat(k + seq![' '], seq!['='], '=');
        crate::textutil::lemma_first_index_from_props(seq!['='], '=', 0);
        let e = first_index_of(t, '=');
        assert(e == kl + 1);
        assert(e < t.len());
        assert(t.take(e) =~= k + seq![' ']);
        crate::textutil::lemma_trim_range(k + seq![' '], 0, kl);
        assert((k + seq![' ']).subrange(0, kl) =~= k);
        assert(t.skip(e + 1) =~= Seq::<char>::empty());
        assert(trim_spec(Seq::<char>::empty()) =~= Seq::<char>::empty());
        assert(!is_interface_header(t)) by {
            if "[Interface"@.is_prefix_of(t) {
                assert(t[0] == ("[Interface"@)[0]);
                assert(t[0] == k[0]);
                assert(false);
            }
        }
        assert(!is_peer_header(t)) by {
            if "[Peer"@.is_prefix_of(t) {
                assert(t[0] == ("[Peer"@)[0]);
                assert(t[0] == k[0]);
                assert(false);
            }
        }
    }
}

/// An interface the text format can carry losslessly: its values fit on
/// one line and carry no surrounding whitespace.
pub open spec fn interface_clean(i: InterfaceV) -> bool {
    &&& crate::textutil::clean_value(i.private_key)
    &&& crate::textutil::clean_value(i.address)
}

/// A peer the text format can carry losslessly: clean single-line values,
/// at least one allowed address, and no comma inside any address.
pub open spec fn peer_clean(p: PeerV) -> bool {
    &&& crate::textutil::clean_value(p.public_key)
    &&& p.allowed_ips.len() >= 1
    &&& forall|j: int|
        0 <= j < p.allowed_ips.len() ==> crate::textutil::clean_value(#[trigger] p.allowed_ips[j])
            && !p.allowed_ips[j].contains(',')
    &&& match p.endpoint {
        Some(e) => crate::textutil::clean_value(e),
        None => true,
    }
}

/// Every peer of the sequence is clean.
pub open spec fn peers_clean(ps: Seq<PeerV>) -> bool {
    forall|i: int| 0 <= i < ps.len() ==> peer_clean(#[trigger] ps[i])
}

/// The comma-join of clean, comma-free addresses is itself a clean value.
proof fn lemma_join_ips_clean(ips: Seq<Seq<char>>)
    requires
        ips.len() >= 1,
        forall|j: int|
            0 <= j < ips.len() ==> crate::textutil::clean_value(#[trigger] ips[j])
                && !ips[j].contains(','),
    ensures
        crate::textutil::clean_value(join_with(ips, ',')),
    decreases ips.len(),
{
    let s = join_with(ips, ',');
    if ips.len() == 1 {
        assert(s == ips[0]);
    } else {
        let rest = join_with(ips.drop_first(), ',');
        assert(forall|j: int| 0 <= j < ips.drop_first().len() ==> ips.drop_first()[j] == ips[j + 1]);
        lemma_join_ips_clean(ips.drop_first());
        assert(s == ips[0] + seq![','] + rest);
        assert(!s.contains('\n')) by {
            if s.contains('\n') {
                let w = choose|w: int| 0 <= w < s.len() && s[w] == '\n';
                let kl = ips[0].len() as int;
                if w < kl {
                    assert(s[w] == ips[0][w]);
                    assert(ips[0].contains('\n'));
                    assert(false);
                } else if w == kl {
                    assert(false);
                } else {
                    assert(s[w] == rest[w - kl - 1]);
                    assert(rest.contains('\n'));
                    assert(false);
                }
            }
        }
        assert(s.len() > 0);
        let first = s[0];
        let last = s.last();
        if ips[0].len() > 0 {
            crate::textutil::lemma_clean_endpoints(ips[0]);
            assert(first == ips[0][0]);
        } else {
            assert(first == ',');
        }
        if rest.len() > 0 {
            crate::textutil::lemma_clean_endpoints(rest);
            assert(last == rest[rest.len() - 1]);
        } else {
            assert(last == ',');
        }
        assert(!crate::textutil::is_space_char(first));
        assert(!crate::textutil::is_space_char(last));
        crate::textutil::lemma_trim_range(s, 0, s.len() as int);
        assert(s.subrange(0, s.len() as int) =~= s);
    }
}

/// Decoding the interface block from the initial state yields exactly that
/// interface, no peers, and the interface section left open.
proof fn lemma_decode_interface_block(i: InterfaceV)
    requires
        interface_clean(i),
    ensures
        decode_lines(decode_init(), interface_lines(i)) == (DecodeState {
            interface: i,
            peers: Seq::<PeerV>::empty(),
            section: ConfSection::InInterface,
        }),
{
    reveal_with_fuel(decode_lines, 6);
    lemma_keywords_ok();
    lemma_header_facts();
    let ls = interface_lines(i);
    let st0 = decode_init();
    let l0 = "[Interface]"@;
    let l1 = kv_text("PrivateKey"@, i.private_key);
    let l2 = kv_text("Address"@, i.address);
    let st1 = decode_line(st0, l0);
    assert(st1.section == ConfSection::InInterface && st1.interface == st0.interface && st1.peers
        == st0.peers);
    lemma_kv_line("PrivateKey"@, i.private_key);
    let st2 = decode_line(st1, l1);
    assert(st2.interface.private_key == i.private_key && st2.interface.address
        == st1.interface.address && st2.interface.listen_port == st1.interface.listen_port
        && st2.peers == st1.peers && st2.section == st1.section);
    lemma_kv_line("Address"@, i.address);
    let st3 = decode_line(st2, l2);
    assert(st3.interface.private_key == i.private_key && st3.interface.address == i.address
        && st3.interface.listen_port == st2.interface.listen_port && st3.peers == st2.peers
        && st3.section == st2.section);
    match i.listen_port {
        Some(p) => {
            crate::textutil::lemma_dec_rep_val(p as int);
            crate::textutil::lemma_digits_clean(dec_rep(p as int));
            lemma_kv_line("ListenPort"@, dec_rep(p as int));
            crate::textutil::lemma_parse_dec_rep(p);
            let l3 = kv_text("ListenPort"@, dec_rep(p as int));
            let st4 = decode_line(st3, l3);
            assert(st4.interface =~~= i);
            assert(ls =~= seq![l0, l1, l2, l3]);
            assert(ls.drop_first() =~= seq![l1, l2, l3]);
            assert(ls.drop_first().drop_first() =~= seq![l2, l3]);
            assert(ls.drop_first().drop_first().drop_first() =~= seq![l3]);
            assert(ls.drop_first().drop_first().drop_first().drop_first()
                =~= Seq::<Seq<char>>::empty());
            assert(decode_lines(st0, ls) == st4);
            assert(st4 =~~= (DecodeState {
                interface: i,
                peers: Seq::<PeerV>::empty(),
                section: ConfSection::InInterface,
            }));
        },
        None => {
            assert(st3.interface =~~= i);
            assert(ls =~= seq![l0, l1, l2]);
            assert(ls.drop_first() =~= seq![l1, l2]);
            assert(ls.drop_first().drop_first() =~= seq![l2]);
            assert(ls.drop_first().drop_first().drop_first() =~= Seq::<Seq<char>>::empty());
            assert(decode_lines(st0, ls) == st3);
            assert(st3 =~~= (DecodeState {
                interface: i,
                peers: Seq::<PeerV>::empty(),
                section: ConfSection::InInterface,
            }));
        },
    }
}

/// Decoding one peer block appends exactly that peer and leaves a peer
/// section open, whatever state the scan was in before.
proof fn lemma_decode_peer_block(st: DecodeState, p: PeerV)
    requires
        peer_clean(p),
    ensures
        decode_lines(st, peer_lines(p)) == (DecodeState {
            interface: st.interface,
            peers: st.peers.push(p),
            section: ConfSection::InPeer,
        }),
{
    reveal_with_fuel(decode_lines, 7);
    lemma_keywords_ok();
    lemma_header_facts();
    let ls = peer_lines(p);
    let lb = Seq::<char>::empty();
    let lh = "[Peer]"@;
    let l1 = kv_text("PublicKey"@, p.public_key);
    let joined = join_with(p.allowed_ips, ',');
    let l2 = kv_text("AllowedIPs"@, joined);
    let st1 = decode_line(st, lb);
    assert(st1 == st);
    let st2 = decode_line(st1, lh);
    assert(st2.interface == st.interface && st2.peers =~= st.peers.push(zero_peer()) && st2.section
        == ConfSection::InPeer);
    lemma_kv_line("PublicKey"@, p.public_key);
    let st3 = decode_line(st2, l1);
    assert(st2.peers.len() > 0 && st2.peers.last() == zero_peer());
    let p1 = apply_peer_key(zero_peer(), "PublicKey"@, p.public_key);
    assert(p1.public_key == p.public_key && p1.allowed_ips == zero_peer().allowed_ips && p1.endpoint
        is None);
    assert(st3.peers =~= st.peers.push(p1));
    assert(st3.interface == st.interface && st3.section == ConfSection::InPeer);
    lemma_join_ips_clean(p.allowed_ips);
    lemma_kv_line("AllowedIPs"@, joined);
    crate::textutil::lemma_split_of_join(p.allowed_ips, ',');
    let st4 = decode_line(st3, l2);
    let p2 = apply_peer_key(p1, "AllowedIPs"@, joined);
    assert(p2.public_key == p.public_key && p2.allowed_ips =~= p.allowed_ips && p2.endpoint
        is None);
    assert(st3.peers.len() > 0 && st3.peers.last() == p1);
    assert(st4.peers =~= st.peers.push(p2));
    assert(st4.interface == st.interface && st4.section == ConfSection::InPeer);
    match p.endpoint {
        Some(e) => {
            lemma_kv_line("Endpoint"@, e);
            let l3 = kv_text("Endpoint"@, e);
            let st5 = decode_line(st4, l3);
            let p3 = apply_peer_key(p2, "Endpoint"@, e);
            assert(p3 =~~= p);
            assert(st4.peers.len() > 0 && st4.peers.last() == p2);
            assert(st5.peers =~= st.peers.push(p3));
            assert(st5.interface == st.interface && st5.section == ConfSection::InPeer);
            assert(ls =~= seq![lb, lh, l1, l2, l3]);
            assert(ls.drop_first() =~= seq![lh, l1, l2, l3]);
            assert(ls.drop_first().drop_first() =~= seq![l1, l2, l3]);
            assert(ls.drop_first().drop_first().drop_first() =~= seq![l2, l3]);
            assert(ls.drop_first().drop_first().drop_first().drop_first() =~= seq![l3]);
            assert(ls.drop_first().drop_first().drop_first().drop_first().drop_first()
                =~= Seq::<Seq<char>>::empty());
            assert(decode_lines(st, ls) == st5);
            assert(st5 =~~= (DecodeState {
                interface: st.interface,
                peers: st.peers.push(p),
                section: ConfSection::InPeer,
            }));
        },
        None => {
            assert(p2 =~~= p);
            assert(ls =~= seq![lb, lh, l1, l2]);
            assert(ls.drop_first() =~= seq![lh, l1, l2]);
            assert(ls.drop_first().drop_first() =~= seq![l1, l2]);
            assert(ls.drop_first().drop_first().drop_first() =~= seq![l2]);
            assert(ls.drop_first().drop_first().drop_first().drop_first()
                =~= Seq::<Seq<char>>::empty());
            assert(decode_lines(st, ls) == st4);
            assert(st4 =~~= (DecodeState {
                interface: st.interface,
                peers: st.peers.push(p),
                section: ConfSection::InPeer,
            }));
        },
    }
}

/// Decoding all peer blocks appends exactly those peers, in order.
proof fn lemma_decode_peers_blocks(st: DecodeState, ps: Seq<PeerV>)
    requires
        peers_clean(ps),
    ensures
        decode_lines(st, peers_lines(ps)) == (DecodeState {
            interface: st.interface,
            peers: st.peers + ps,
            section: if ps.len() == 0 {
                st.section
            } else {
                ConfSection::InPeer
            },
        }),
    decreases ps.len(),
{
    if ps.len() == 0 {
        assert(st.peers + ps =~= st.peers);
        assert(decode_lines(st, peers_lines(ps)) == st);
        assert(st =~~= (DecodeState { interface: st.interface, peers: st.peers + ps,
            section: st.section }));
    } else {
        lemma_decode_peer_block(st, ps[0]);
        let st1 = DecodeState {
            interface: st.interface,
            peers: st.peers.push(ps[0]),
            section: ConfSection::InPeer,
        };
        lemma_decode_lines_append(st, peer_lines(ps[0]), peers_lines(ps.drop_first()));
        assert(forall|j: int| 0 <= j < ps.drop_first().len() ==> ps.drop_first()[j] == ps[j + 1]);
        lemma_decode_peers_blocks(st1, ps.drop_first());
        assert(st.peers.push(ps[0]) + ps.drop_first() =~= st.peers + ps);
        assert(peers_lines(ps) == peer_lines(ps[0]) + peers_lines(ps.drop_first()));
    }
}

/// Every line of an encoded file is newline-free.
proof fn lemma_peers_lines_no_newline(ps: Seq<PeerV>)
    requires
        peers_clean(ps),
    ensures
        forall|j: int|
            0 <= j < peers_lines(ps).len() ==> !(#[trigger] peers_lines(ps)[j]).contains('\n'),
    decreases ps.len(),
{
    lemma_keywords_ok();
    lemma_header_facts();
    if ps.len() > 0 {
        let p = ps[0];
        lemma_kv_line("PublicKey"@, p.public_key);
        lemma_join_ips_clean(p.allowed_ips);
        lemma_kv_line("AllowedIPs"@, join_with(p.allowed_ips, ','));
        match p.endpoint {
            Some(e) => {
                lemma_kv_line("Endpoint"@, e);
            },
            None => {},
        }
        assert(forall|j: int| 0 <= j < ps.drop_first().len() ==> ps.drop_first()[j] == ps[j + 1]);
        lemma_peers_lines_no_newline(ps.drop_first());
        let head = peer_lines(p);
        assert(forall|j: int| 0 <= j < head.len() ==> !(#[trigger] head[j]).contains('\n')) by {
            assert(!Seq::<char>::empty().contains('\n')) by {
                if Seq::<char>::empty().contains('\n') {
                    let w = choose|w: int| 0 <= w < 0 && Seq::<char>::empty()[w] == '\n';
                    assert(false);
                }
            }
            assert forall|j: int| 0 <= j < head.len() implies !(#[trigger] head[j]).contains('\n')
            by {
                match p.endpoint {
                    Some(e) => {
                        assert(head =~= seq![Seq::<char>::empty(), "[Peer]"@,
                            kv_text("PublicKey"@, p.public_key), kv_text("AllowedIPs"@,
                            join_with(p.allowed_ips, ',')), kv_text("Endpoint"@, e)]);
                    },
                    None => {
                        assert(head =~= seq![Seq::<char>::empty(), "[Peer]"@,
                            kv_text("PublicKey"@, p.public_key), kv_text("AllowedIPs"@,
                            join_with(p.allowed_ips, ','))]);
                    },
                }
            }
        }
        assert(peers_lines(ps) == head + peers_lines(ps.drop_first()));
        assert forall|j: int|
            0 <= j < peers_lines(ps).len() implies !(#[trigger] peers_lines(ps)[j]).contains('\n')
        by {
            if j < head.len() {
                assert(peers_lines(ps)[j] == head[j]);
            } else {
                assert(peers_lines(ps)[j] == peers_lines(ps.drop_first())[j - head.len()]);
            }
        }
    }
}

proof fn lemma_conf_lines_no_newline(i: InterfaceV, ps: Seq<PeerV>)
    requires
        interface_clean(i),
        peers_clean(ps),
    ensures
        forall|j: int|
            0 <= j < conf_lines(i, ps).len() ==> !(#[trigger] conf_lines(i, ps)[j]).contains('\n'),
{
    lemma_keywords_ok();
    lemma_header_facts();
    lemma_kv_line("PrivateKey"@, i.private_key);
    lemma_kv_line("Address"@, i.address);
    let hd = interface_lines(i);
    assert(forall|j: int| 0 <= j < hd.len() ==> !(#[trigger] hd[j]).contains('\n')) by {
        assert forall|j: int| 0 <= j < hd.len() implies !(#[trigger] hd[j]).contains('\n') by {
            match i.listen_port {
                Some(p) => {
                    crate::textutil::lemma_dec_rep_val(p as int);
                    crate::textutil::lemma_digits_clean(dec_rep(p as int));
                    lemma_kv_line("ListenPort"@, dec_rep(p as int));
                    assert(hd =~= seq!["[Interface]"@, kv_text("PrivateKey"@, i.private_key),
                        kv_text("Address"@, i.address), kv_text("ListenPort"@,
                        dec_rep(p as int))]);
                },
                None => {
                    assert(hd =~= seq!["[Interface]"@, kv_text("PrivateKey"@, i.private_key),
                        kv_text("Address"@, i.address)]);
                },
            }
        }
    }
    lemma_peers_lines_no_newline(ps);
    assert forall|j: int|
        0 <= j < conf_lines(i, ps).len() implies !(#[trigger] conf_lines(i, ps)[j]).contains('\n')
    by {
        if j < hd.len() {
            assert(conf_lines(i, ps)[j] == hd[j]);
        } else {
            assert(conf_lines(i, ps)[j] == peers_lines(ps)[j - hd.len()]);
        }
    }
}

/// Law: the encode/decode round trip. For any interface and ordered peer
/// sequence whose values are clean — each value fits on one line with no
/// surrounding whitespace, and every peer lists at least one comma-free
/// allowed address — decoding the encoded text reproduces the same
/// interface and the same peers in the same order, including the omission
/// of absent optional fields.
pub proof fn lemma_conf_round_trip(i: InterfaceV, ps: Seq<PeerV>)
    requires
        interface_clean(i),
        peers_clean(ps),
    ensures
        spec_decode(encode_conf(i, ps)).interface == i,
        spec_decode(encode_conf(i, ps)).peers == ps,
{
    reveal_with_fuel(decode_lines, 2);
    lemma_header_facts();
    lemma_encode_conf_lines(i, ps);
    lemma_conf_lines_no_newline(i, ps);
    lemma_split_lines_text(conf_lines(i, ps));
    let cl = conf_lines(i, ps);
    let tail = seq![Seq::<char>::empty()];
    assert(spec_split(encode_conf(i, ps), '\n') == cl + tail);
    lemma_decode_lines_append(decode_init(), cl, tail);
    lemma_decode_lines_append(decode_init(), interface_lines(i), peers_lines(ps));
    lemma_decode_interface_block(i);
    let sti = DecodeState {
        interface: i,
        peers: Seq::<PeerV>::empty(),
        section: ConfSection::InInterface,
    };
    lemma_decode_peers_blocks(sti, ps);
    let stf = decode_lines(decode_init(), cl);
    assert(stf.interface == i);
    assert(stf.peers =~= Seq::<PeerV>::empty() + ps);
    assert(Seq::<PeerV>::empty() + ps =~= ps);
    let ste = decode_line(stf, Seq::<char>::empty());
    assert(ste == stf);
    assert(decode_lines(stf, tail) == ste);
}

/// Law: decoding is total and inert without section headers. A text none
/// of whose lines opens a section — however many unrecognised keys it
/// contains — decodes to the zero-valued interface and an empty peer
/// sequence, never to an error.
pub proof fn lemma_decode_without_headers(text: Seq<char>)
    requires
        forall|j: int|
            0 <= j < spec_split(text, '\n').len() ==> !is_interface_header(
                trim_spec(#[trigger] spec_split(text, '\n')[j]),
            ) && !is_peer_header(trim_spec(spec_split(text, '\n')[j])),
    ensures
        spec_decode(text) == decode_init(),
{
    lemma_decode_lines_outside(decode_init(), spec_split(text, '\n'));
}

proof fn lemma_decode_lines_outside(st: DecodeState, lines: Seq<Seq<char>>)
    requires
        st.section == ConfSection::Outside,
        forall|j: int|
            0 <= j < lines.len() ==> !is_interface_header(trim_spec(#[trigger] lines[j]))
                && !is_peer_header(trim_spec(lines[j])),
    ensures
        decode_lines(st, lines) == st,
    decreases lines.len(),
{
    if lines.len() > 0 {
        let st1 = decode_line(st, lines[0]);
        assert(st1 == st);
        assert(forall|j: int| 0 <= j < lines.drop_first().len() ==> lines.drop_first()[j]
            == lines[j + 1]);
        lemma_decode_lines_outside(st1, lines.drop_first());
    }
}

} // verus!

