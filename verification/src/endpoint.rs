//! Where a freshly started server listens: the port each datastore is given,
//! the environment the server process is started with, and the address a
//! client dials to reach it.
use vstd::prelude::*;
use vstd::arithmetic::div_mod::{lemma_add_mod_noop, lemma_mod_equivalence, lemma_small_mod};
use crate::decimal::{
    decimal, is_numeral, lemma_decimal_injective, lemma_decimal_reads_back, numeral_value,
    usize_to_decimal,
};

verus! {

/// The port handed to the first server that is started.
pub const START_PORT: usize = 27615;

/// How many distinct values a `usize` holds.
pub open spec fn port_modulus() -> int {
    usize::MAX as int + 1
}

/// The port handed out by the `k`-th allocation (counting from zero): the
/// ports run upwards from `START_PORT` and wrap around past `usize::MAX`.
pub open spec fn nth_port(k: nat) -> int {
    (START_PORT as int + k) % port_modulus()
}

/// Hands out the ports on which servers are started, one after the other.
pub struct PortAllocator {
    next: usize,
    issued: Ghost<nat>,
}

impl PortAllocator {
    #[verifier::type_invariant]
    spec fn well_formed(self) -> bool {
        self.next as int == nth_port(self.issued@)
    }

    /// How many ports this allocator has handed out.
    pub closed spec fn issued(self) -> nat {
        self.issued@
    }

    /// The port the next allocation hands out.
    pub closed spec fn next_port(self) -> int {
        self.next as int
    }

    /// An allocator that has handed out nothing yet.
    pub fn new() -> (a: Self)
        ensures
            a.issued() == 0,
            a.next_port() == 27615,
    {
        proof {
            lemma_small_mod(START_PORT as nat, port_modulus() as nat);
        }
        PortAllocator { next: START_PORT, issued: Ghost(0) }
    }

    /// Hands out the next port: the one the counter holds, after which the
    /// counter moves on by one, wrapping around past `usize::MAX`.
    pub fn allocate(&mut self) -> (port: usize)
        ensures
            port as int == nth_port(old(self).issued()),
            final(self).issued() == old(self).issued() + 1,
            port as int == old(self).next_port(),
            final(self).next_port() == if port == usize::MAX {
                0
            } else {
                port + 1
            },
    {
        proof {
            use_type_invariant(&*self);
        }
        let port = self.next;
        let ghost k = self.issued@;
        let next = if port == usize::MAX {
            0
        } else {
            port + 1
        };
        proof {
            let m = port_modulus();
            lemma_add_mod_noop(START_PORT as int + k, 1, m);
            lemma_small_mod(1, m as nat);
            if port < usize::MAX {
                lemma_small_mod((port + 1) as nat, m as nat);
            }
            assert(next as int == nth_port(k + 1));
        }
        *self = PortAllocator { next, issued: Ghost(k + 1) };
        port
    }
}

/// The ports run up by one: the first allocation hands out 27615, and each
/// allocation hands out the previous port plus one, wrapping to zero after
/// `usize::MAX`.
pub proof fn lemma_ports_count_up(k: nat)
    ensures
        nth_port(0) == 27615,
        nth_port(k + 1) == if nth_port(k) == usize::MAX {
            0
        } else {
            nth_port(k) + 1
        },
        0 <= nth_port(k) <= usize::MAX,
{
    let m = port_modulus();
    lemma_small_mod(27615, m as nat);
    lemma_add_mod_noop(START_PORT as int + k, 1, m);
    lemma_small_mod(1, m as nat);
    let q = nth_port(k);
    assert(0 <= q < m);
    if q + 1 < m {
        lemma_small_mod((q + 1) as nat, m as nat);
    }
}

/// Within one turn of the counter, no port is handed out twice: the `i`-th
/// and the `j`-th allocation of one allocator differ whenever `i < j` and
/// fewer than `usize::MAX + 1` allocations separate them.
pub proof fn lemma_allocations_distinct(i: nat, j: nat)
    requires
        i < j,
        j - i < port_modulus(),
    ensures
        nth_port(i) != nth_port(j),
{
    let m = port_modulus();
    let x = START_PORT as int + j;
    let y = START_PORT as int + i;
    lemma_mod_equivalence(x, y, m);
    lemma_small_mod((j - i) as nat, m as nat);
    assert(x - y == j - i);
}

/// The address a client dials to reach the server listening on `port`.
pub open spec fn address_for(port: nat) -> Seq<char> {
    "127.0.0.1:"@ + decimal(port)
}

/// The address of the local server listening on `port`: the loopback host,
/// a colon, and the port in decimal.
pub fn server_address(port: usize) -> (addr: String)
    ensures
        addr@ == address_for(port as nat),
        addr@.len() > 10,
        addr@.take(10) == "127.0.0.1:"@,
        is_numeral(addr@.skip(10)),
        numeral_value(addr@.skip(10)) == port,
        addr@[10] == '0' ==> port == 0,
{
    proof {
        lemma_address_reads_back(port as nat);
    }
    let mut addr = String::from_str("127.0.0.1:");
    let digits = usize_to_decimal(port);
    addr.append(digits.as_str());
    addr
}

/// Reading back: the address of `port` is the loopback host and a colon,
/// followed by a string of digits, without leading zero, that denotes `port`.
pub proof fn lemma_address_reads_back(port: nat)
    ensures
        address_for(port).len() > 10,
        address_for(port).take(10) == "127.0.0.1:"@,
        is_numeral(address_for(port).skip(10)),
        numeral_value(address_for(port).skip(10)) == port,
        address_for(port)[10] == '0' ==> port == 0,
{
    reveal_strlit("127.0.0.1:");
    lemma_decimal_reads_back(port);
    let a = address_for(port);
    assert(a.take(10) =~= "127.0.0.1:"@);
    assert(a.skip(10) =~= decimal(port));
    assert(a[10] == decimal(port)[0]);
}

/// Servers on different ports are reached at different addresses.
pub proof fn lemma_addresses_distinct(a: nat, b: nat)
    requires
        a != b,
    ensures
        address_for(a) != address_for(b),
{
    if address_for(a) == address_for(b) {
        let p = "127.0.0.1:"@;
        assert(address_for(a).subrange(p.len() as int, address_for(a).len() as int) =~= decimal(a));
        assert(address_for(b).subrange(p.len() as int, address_for(b).len() as int) =~= decimal(b));
        lemma_decimal_injective(a, b);
    }
}

/// The environment the server on `port` is started with: the single
/// variable `PORT`, holding the port in decimal.
pub fn server_environment(port: usize) -> (env: Vec<(String, String)>)
    ensures
        env@.len() == 1,
        env@[0].0@ == "PORT"@,
        env@[0].1@ == decimal(port as nat),
        is_numeral(env@[0].1@),
        numeral_value(env@[0].1@) == port,
        env@[0].1@[0] == '0' ==> port == 0,
{
    let mut env: Vec<(String, String)> = Vec::new();
    env.push((String::from_str("PORT"), usize_to_decimal(port)));
    env
}

/// Everything a server start needs to know of where the server listens.
pub struct ServerLaunch {
    /// The port the server is given.
    pub port: usize,
    /// The environment the server process is started with.
    pub environment: Vec<(String, String)>,
    /// The address the client dials.
    pub address: String,
}

/// Takes the next port from `ports` and derives from it the server's
/// environment and the address the client dials.
pub fn plan_server_launch(ports: &mut PortAllocator) -> (launch: ServerLaunch)
    ensures
        launch.port as int == nth_port(old(ports).issued()),
        final(ports).issued() == old(ports).issued() + 1,
        launch.port as int == old(ports).next_port(),
        final(ports).next_port() == if launch.port == usize::MAX {
            0
        } else {
            launch.port + 1
        },
        launch.environment@.len() == 1,
        launch.environment@[0].0@ == "PORT"@,
        launch.environment@[0].1@ == decimal(launch.port as nat),
        launch.address@ == address_for(launch.port as nat),
        is_numeral(launch.environment@[0].1@),
        numeral_value(launch.environment@[0].1@) == launch.port,
        launch.address@.take(10) == "127.0.0.1:"@,
        launch.address@.skip(10) == launch.environment@[0].1@,
{
    let port = ports.allocate();
    let environment = server_environment(port);
    let address = server_address(port);
    ServerLaunch { port, environment, address }
}

} // verus!
