use vstd::prelude::*;

verus! {

/// A capability of the running kernel that capture depends on.
#[derive(Debug, Clone, Copy, PartialEq, Eq, Structural)]
pub enum KernelCapability {
    Bpf,
    BpfSyscall,
    BpfEvents,
    Kprobes,
    KprobeEvents,
    /// Recorded as a device fact only; uprobe capture is not offered.
    Uprobes,
    /// Recorded as a device fact only; uprobe capture is not offered.
    UprobeEvents,
    Ftrace,
    FunctionTracer,
    FtraceSyscalls,
    DebugInfoBtf,
    Kallsyms,
    KallsymsAll,
}

/// Every capability, in declaration order.
pub open spec fn all_capabilities() -> Seq<KernelCapability> {
    seq![
        KernelCapability::Bpf,
        KernelCapability::BpfSyscall,
        KernelCapability::BpfEvents,
        KernelCapability::Kprobes,
        KernelCapability::KprobeEvents,
        KernelCapability::Uprobes,
        KernelCapability::UprobeEvents,
        KernelCapability::Ftrace,
        KernelCapability::FunctionTracer,
        KernelCapability::FtraceSyscalls,
        KernelCapability::DebugInfoBtf,
        KernelCapability::Kallsyms,
        KernelCapability::KallsymsAll,
    ]
}

impl KernelCapability {
    /// Position of a capability in declaration order.
    pub open spec fn index(self) -> u64 {
        match self {
            KernelCapability::Bpf => 0,
            KernelCapability::BpfSyscall => 1,
            KernelCapability::BpfEvents => 2,
            KernelCapability::Kprobes => 3,
            KernelCapability::KprobeEvents => 4,
            KernelCapability::Uprobes => 5,
            KernelCapability::UprobeEvents => 6,
            KernelCapability::Ftrace => 7,
            KernelCapability::FunctionTracer => 8,
            KernelCapability::FtraceSyscalls => 9,
            KernelCapability::DebugInfoBtf => 10,
            KernelCapability::Kallsyms => 11,
            KernelCapability::KallsymsAll => 12,
        }
    }

    /// The Kconfig key that enables a capability.
    pub open spec fn spec_config_key(self) -> Seq<char> {
        match self {
            KernelCapability::Bpf => "CONFIG_BPF"@,
            KernelCapability::BpfSyscall => "CONFIG_BPF_SYSCALL"@,
            KernelCapability::BpfEvents => "CONFIG_BPF_EVENTS"@,
            KernelCapability::Kprobes => "CONFIG_KPROBES"@,
            KernelCapability::KprobeEvents => "CONFIG_KPROBE_EVENTS"@,
            KernelCapability::Uprobes => "CONFIG_UPROBES"@,
            KernelCapability::UprobeEvents => "CONFIG_UPROBE_EVENTS"@,
            KernelCapability::Ftrace => "CONFIG_FTRACE"@,
            KernelCapability::FunctionTracer => "CONFIG_FUNCTION_TRACER"@,
            KernelCapability::FtraceSyscalls => "CONFIG_FTRACE_SYSCALLS"@,
            KernelCapability::DebugInfoBtf => "CONFIG_DEBUG_INFO_BTF"@,
            KernelCapability::Kallsyms => "CONFIG_KALLSYMS"@,
            KernelCapability::KallsymsAll => "CONFIG_KALLSYMS_ALL"@,
        }
    }

    /// The short diagnostic name of a capability.
    pub open spec fn spec_name(self) -> Seq<char> {
        match self {
            KernelCapability::Bpf => "bpf"@,
            KernelCapability::BpfSyscall => "bpf_syscall"@,
            KernelCapability::BpfEvents => "bpf_events"@,
            KernelCapability::Kprobes => "kprobes"@,
            KernelCapability::KprobeEvents => "kprobe_events"@,
            KernelCapability::Uprobes => "uprobes"@,
            KernelCapability::UprobeEvents => "uprobe_events"@,
            KernelCapability::Ftrace => "ftrace"@,
            KernelCapability::FunctionTracer => "function_tracer"@,
            KernelCapability::FtraceSyscalls => "ftrace_syscalls"@,
            KernelCapability::DebugInfoBtf => "debug_info_btf"@,
            KernelCapability::Kallsyms => "kallsyms"@,
            KernelCapability::KallsymsAll => "kallsyms_all"@,
        }
    }

    /// The Kconfig key that enables this capability.
    pub fn config_key(self) -> (r: &'static str)
        ensures
            r@ == self.spec_config_key(),
    {
        match self {
            KernelCapability::Bpf => "CONFIG_BPF",
            KernelCapability::BpfSyscall => "CONFIG_BPF_SYSCALL",
            KernelCapability::BpfEvents => "CONFIG_BPF_EVENTS",
            KernelCapability::Kprobes => "CONFIG_KPROBES",
            KernelCapability::KprobeEvents => "CONFIG_KPROBE_EVENTS",
            KernelCapability::Uprobes => "CONFIG_UPROBES",
            KernelCapability::UprobeEvents => "CONFIG_UPROBE_EVENTS",
            KernelCapability::Ftrace => "CONFIG_FTRACE",
            KernelCapability::FunctionTracer => "CONFIG_FUNCTION_TRACER",
            KernelCapability::FtraceSyscalls => "CONFIG_FTRACE_SYSCALLS",
            KernelCapability::DebugInfoBtf => "CONFIG_DEBUG_INFO_BTF",
            KernelCapability::Kallsyms => "CONFIG_KALLSYMS",
            KernelCapability::KallsymsAll => "CONFIG_KALLSYMS_ALL",
        }
    }

    /// The short name used in diagnostic output.
    pub fn name(self) -> (r: &'static str)
        ensures
            r@ == self.spec_name(),
    {
        match self {
            KernelCapability::Bpf => "bpf",
            KernelCapability::BpfSyscall => "bpf_syscall",
            KernelCapability::BpfEvents => "bpf_events",
            KernelCapability::Kprobes => "kprobes",
            KernelCapability::KprobeEvents => "kprobe_events",
            KernelCapability::Uprobes => "uprobes",
            KernelCapability::UprobeEvents => "uprobe_events",
            KernelCapability::Ftrace => "ftrace",
            KernelCapability::FunctionTracer => "function_tracer",
            KernelCapability::FtraceSyscalls => "ftrace_syscalls",
            KernelCapability::DebugInfoBtf => "debug_info_btf",
            KernelCapability::Kallsyms => "kallsyms",
            KernelCapability::KallsymsAll => "kallsyms_all",
        }
    }

    /// The bit of this capability in a capability set.
    pub fn bit(self) -> (r: u64)
        ensures
            r == 1u64 << self.index(),
    {
        let i: u64 = match self {
            KernelCapability::Bpf => 0,
            KernelCapability::BpfSyscall => 1,
            KernelCapability::BpfEvents => 2,
            KernelCapability::Kprobes => 3,
            KernelCapability::KprobeEvents => 4,
            KernelCapability::Uprobes => 5,
            KernelCapability::UprobeEvents => 6,
            KernelCapability::Ftrace => 7,
            KernelCapability::FunctionTracer => 8,
            KernelCapability::FtraceSyscalls => 9,
            KernelCapability::DebugInfoBtf => 10,
            KernelCapability::Kallsyms => 11,
            KernelCapability::KallsymsAll => 12,
        };
        1u64 << i
    }
}

/// Every capability, in declaration order.
pub fn all_capability_list() -> (r: Vec<KernelCapability>)
    ensures
        r@ == all_capabilities(),
{
    let v = vec![
        KernelCapability::Bpf,
        KernelCapability::BpfSyscall,
        KernelCapability::BpfEvents,
        KernelCapability::Kprobes,
        KernelCapability::KprobeEvents,
        KernelCapability::Uprobes,
        KernelCapability::UprobeEvents,
        KernelCapability::Ftrace,
        KernelCapability::FunctionTracer,
        KernelCapability::FtraceSyscalls,
        KernelCapability::DebugInfoBtf,
        KernelCapability::Kallsyms,
        KernelCapability::KallsymsAll,
    ];
    assert(v@ =~= all_capabilities());
    v
}

/// Setting one bit keeps every other bit and sets that one.
pub proof fn lemma_bit_set(bits: u64, i: u64, j: u64)
    requires
        i < 64,
        j < 64,
    ensures
        ((bits | (1u64 << i)) & (1u64 << j) != 0) == ((bits & (1u64 << j) != 0) || i == j),
{
    assert(((bits | (1u64 << i)) & (1u64 << j) != 0) == ((bits & (1u64 << j) != 0) || i == j))
        by (bit_vector)
        requires
            i < 64,
            j < 64,
    ;
}

/// A set below bit `i` stays below bit `i + 1`, also with bit `i` set.
pub proof fn lemma_bits_bound(prev: u64, i: u64)
    requires
        prev < (1u64 << i),
        i < 13,
    ensures
        (prev | (1u64 << i)) < (1u64 << ((i + 1) as u64)),
        prev < (1u64 << ((i + 1) as u64)),
{
    assert((prev | (1u64 << i)) < (1u64 << ((i + 1) as u64)) && prev < (1u64 << ((i + 1) as u64)))
        by (bit_vector)
        requires
            prev < (1u64 << i),
            i < 13,
    ;
}

/// The empty set holds no bit.
pub proof fn lemma_zero_has_none(j: u64)
    requires
        j < 64,
    ensures
        0u64 & (1u64 << j) == 0,
{
    assert(0u64 & (1u64 << j) == 0) by (bit_vector);
}

/// Distinct capabilities have distinct bits.
pub proof fn lemma_index_injective(a: KernelCapability, b: KernelCapability)
    ensures
        a.index() == b.index() ==> a == b,
        a.index() < 13,
{
}

/// A set of kernel capabilities.
#[derive(Debug, Clone, Copy, PartialEq, Eq, Structural)]
pub struct KernelCapabilities {
    pub bits: u64,
}

/// Whether a set of capability bits holds a capability.
pub open spec fn has_capability(bits: u64, capability: KernelCapability) -> bool {
    bits & (1u64 << capability.index()) != 0
}

/// The capabilities among the first `n` of declaration order that a set holds.
pub open spec fn present_capabilities(bits: u64, n: nat) -> Seq<KernelCapability>
    decreases n,
{
    if n == 0 {
        Seq::empty()
    } else {
        let before = present_capabilities(bits, (n - 1) as nat);
        let c = all_capabilities()[n - 1];
        if has_capability(bits, c) {
            before.push(c)
        } else {
            before
        }
    }
}

proof fn lemma_all_capabilities_indexed()
    ensures
        all_capabilities().len() == 13,
        forall|k: int| 0 <= k < 13 ==> (#[trigger] all_capabilities()[k]).index() == k,
{
    let all = all_capabilities();
    assert(all[0].index() == 0 && all[1].index() == 1 && all[2].index() == 2 && all[3].index() == 3);
    assert(all[4].index() == 4 && all[5].index() == 5 && all[6].index() == 6 && all[7].index() == 7);
    assert(all[8].index() == 8 && all[9].index() == 9 && all[10].index() == 10 && all[11].index() == 11);
    assert(all[12].index() == 12);
}

proof fn lemma_present_prefix(bits: u64, n: nat)
    requires
        n <= 13,
    ensures
        forall|i: int, j: int|
            0 <= i < j < present_capabilities(bits, n).len() ==> (#[trigger] present_capabilities(bits, n)[i]).index()
                < (#[trigger] present_capabilities(bits, n)[j]).index(),
        forall|i: int|
            0 <= i < present_capabilities(bits, n).len() ==> (#[trigger] present_capabilities(bits, n)[i]).index() < n
                && has_capability(bits, present_capabilities(bits, n)[i]),
        forall|c: KernelCapability|
            (has_capability(bits, c) && c.index() < n) <==> #[trigger] present_capabilities(bits, n).contains(c),
    decreases n,
{
    lemma_all_capabilities_indexed();
    if n > 0 {
        lemma_present_prefix(bits, (n - 1) as nat);
        let before = present_capabilities(bits, (n - 1) as nat);
        let c = all_capabilities()[n - 1];
        assert(c.index() == n - 1);
        assert forall|d: KernelCapability|
            (has_capability(bits, d) && d.index() < n) <==> #[trigger] present_capabilities(bits, n).contains(d) by {
            lemma_index_injective(c, d);
            if has_capability(bits, c) {
                assert(present_capabilities(bits, n) == before.push(c));
                if before.push(c).contains(d) {
                    let k = choose|k: int| 0 <= k < before.push(c).len() && before.push(c)[k] == d;
                    if k < before.len() {
                        assert(before[k] == d);
                        assert(before.contains(d));
                    }
                }
                if has_capability(bits, d) && d.index() < n {
                    if d.index() == n - 1 {
                        assert(before.push(c)[before.len() as int] == d);
                    } else {
                        assert(before.contains(d));
                        let k = choose|k: int| 0 <= k < before.len() && before[k] == d;
                        assert(before.push(c)[k] == d);
                    }
                }
            } else {
                assert(present_capabilities(bits, n) == before);
                if before.contains(d) {
                    assert(d.index() < n - 1);
                }
                if has_capability(bits, d) && d.index() < n && d.index() != n - 1 {
                    assert(before.contains(d));
                }
            }
        }
    }
}

/// The capabilities a set lists are exactly those it holds, in declaration
/// order, none twice.
pub proof fn lemma_present_capabilities(bits: u64)
    ensures
        forall|i: int, j: int|
            0 <= i < j < present_capabilities(bits, 13).len() ==> (#[trigger] present_capabilities(bits, 13)[i]).index()
                < (#[trigger] present_capabilities(bits, 13)[j]).index(),
        forall|c: KernelCapability| has_capability(bits, c) <==> #[trigger] present_capabilities(bits, 13).contains(c),
{
    lemma_present_prefix(bits, 13);
    assert forall|c: KernelCapability| has_capability(bits, c) <==> #[trigger] present_capabilities(bits, 13).contains(c) by {
        lemma_index_injective(c, c);
    }
}

proof fn lemma_present_is_filter(bits: u64, n: nat)
    requires
        n <= 13,
    ensures
        present_capabilities(bits, n) == all_capabilities().take(n as int).filter(
            |c: KernelCapability| has_capability(bits, c),
        ),
    decreases n,
{
    reveal(Seq::filter);
    let pred = |c: KernelCapability| has_capability(bits, c);
    let t = all_capabilities().take(n as int);
    if n == 0 {
        assert(t =~= Seq::<KernelCapability>::empty());
    } else {
        lemma_present_is_filter(bits, (n - 1) as nat);
        assert(t.drop_last() =~= all_capabilities().take(n - 1));
        assert(t.last() == all_capabilities()[n - 1]);
    }
}

/// Different capabilities have different names.
pub proof fn lemma_capability_name_injective(a: KernelCapability, b: KernelCapability)
    ensures
        a != b ==> a.spec_name() != b.spec_name(),
{
    reveal_strlit("bpf");
    reveal_strlit("bpf_syscall");
    reveal_strlit("bpf_events");
    reveal_strlit("kprobes");
    reveal_strlit("kprobe_events");
    reveal_strlit("uprobes");
    reveal_strlit("uprobe_events");
    reveal_strlit("ftrace");
    reveal_strlit("function_tracer");
    reveal_strlit("ftrace_syscalls");
    reveal_strlit("debug_info_btf");
    reveal_strlit("kallsyms");
    reveal_strlit("kallsyms_all");
    if a != b && a.spec_name().len() == b.spec_name().len() {
        assert(a.spec_name()[0] != b.spec_name()[0] || a.spec_name()[1] != b.spec_name()[1] || a.spec_name()[2]
            != b.spec_name()[2] || a.spec_name()[4] != b.spec_name()[4]);
    }
}

/// The names a capability set lists are those of the capabilities it
/// holds, filtered from the declaration-order list, none twice.
pub proof fn lemma_capability_names(bits: u64)
    ensures
        present_capabilities(bits, 13) == all_capabilities().filter(|c: KernelCapability| has_capability(bits, c)),
        forall|i: int, j: int|
            0 <= i < j < present_capabilities(bits, 13).len() ==> (#[trigger] present_capabilities(bits, 13)[i]).spec_name()
                != (#[trigger] present_capabilities(bits, 13)[j]).spec_name(),
{
    lemma_present_is_filter(bits, 13);
    lemma_all_capabilities_indexed();
    assert(all_capabilities().take(13) =~= all_capabilities());
    lemma_present_capabilities(bits);
    let p = present_capabilities(bits, 13);
    assert forall|i: int, j: int| 0 <= i < j < p.len() implies (#[trigger] p[i]).spec_name() != (#[trigger] p[j]).spec_name() by {
        assert(p[i].index() < p[j].index());
        lemma_capability_name_injective(p[i], p[j]);
    }
}

/// Capability bits below bit 13 with no capability set are zero.
proof fn lemma_no_capability_bits(bits: u64)
    requires
        bits < 0x2000,
        forall|c: KernelCapability| !has_capability(bits, c),
    ensures
        bits == 0,
{
    assert(!has_capability(bits, KernelCapability::Bpf));
    assert(!has_capability(bits, KernelCapability::BpfSyscall));
    assert(!has_capability(bits, KernelCapability::BpfEvents));
    assert(!has_capability(bits, KernelCapability::Kprobes));
    assert(!has_capability(bits, KernelCapability::KprobeEvents));
    assert(!has_capability(bits, KernelCapability::Uprobes));
    assert(!has_capability(bits, KernelCapability::UprobeEvents));
    assert(!has_capability(bits, KernelCapability::Ftrace));
    assert(!has_capability(bits, KernelCapability::FunctionTracer));
    assert(!has_capability(bits, KernelCapability::FtraceSyscalls));
    assert(!has_capability(bits, KernelCapability::DebugInfoBtf));
    assert(!has_capability(bits, KernelCapability::Kallsyms));
    assert(!has_capability(bits, KernelCapability::KallsymsAll));
    assert(bits == 0) by (bit_vector)
        requires
            bits < 0x2000,
            bits & (1u64 << 0u64) == 0,
            bits & (1u64 << 1u64) == 0,
            bits & (1u64 << 2u64) == 0,
            bits & (1u64 << 3u64) == 0,
            bits & (1u64 << 4u64) == 0,
            bits & (1u64 << 5u64) == 0,
            bits & (1u64 << 6u64) == 0,
            bits & (1u64 << 7u64) == 0,
            bits & (1u64 << 8u64) == 0,
            bits & (1u64 << 9u64) == 0,
            bits & (1u64 << 10u64) == 0,
            bits & (1u64 << 11u64) == 0,
            bits & (1u64 << 12u64) == 0,
    ;
}

/// Different capabilities are enabled by different Kconfig keys.
pub proof fn lemma_config_key_injective(a: KernelCapability, b: KernelCapability)
    ensures
        a != b ==> a.spec_config_key() != b.spec_config_key(),
{
    reveal_strlit("CONFIG_BPF");
    reveal_strlit("CONFIG_BPF_SYSCALL");
    reveal_strlit("CONFIG_BPF_EVENTS");
    reveal_strlit("CONFIG_KPROBES");
    reveal_strlit("CONFIG_KPROBE_EVENTS");
    reveal_strlit("CONFIG_UPROBES");
    reveal_strlit("CONFIG_UPROBE_EVENTS");
    reveal_strlit("CONFIG_FTRACE");
    reveal_strlit("CONFIG_FUNCTION_TRACER");
    reveal_strlit("CONFIG_FTRACE_SYSCALLS");
    reveal_strlit("CONFIG_DEBUG_INFO_BTF");
    reveal_strlit("CONFIG_KALLSYMS");
    reveal_strlit("CONFIG_KALLSYMS_ALL");
    if a != b && a.spec_config_key().len() == b.spec_config_key().len() {
        assert(a.spec_config_key()[7] != b.spec_config_key()[7] || a.spec_config_key()[8] != b.spec_config_key()[8]);
    }
}

/// A sequence with later repeats of an element removed.
pub open spec fn dedup<T>(s: Seq<T>) -> Seq<T>
    decreases s.len(),
{
    if s.len() == 0 {
        Seq::empty()
    } else {
        let d = dedup(s.drop_last());
        if d.contains(s.last()) {
            d
        } else {
            d.push(s.last())
        }
    }
}

/// Capture sources that can be requested, as a bit set.
#[derive(Debug, Clone, Copy, PartialEq, Eq, Structural)]
pub struct CaptureMode {
    pub bits: u64,
}

/// The short name of a named capture source.
pub open spec fn mode_name(bit: u64) -> Seq<char> {
    if bit == 1 {
        "ebpf-kprobe"@
    } else if bit == 2 {
        "ebpf-tracepoint"@
    } else {
        "tracefs-kprobe"@
    }
}

/// What one named capture source needs from the kernel.
pub open spec fn required_for(bit: u64) -> Seq<KernelCapability> {
    if bit == 1 {
        seq![
            KernelCapability::Bpf,
            KernelCapability::BpfSyscall,
            KernelCapability::BpfEvents,
            KernelCapability::Kprobes,
        ]
    } else if bit == 2 {
        seq![KernelCapability::Bpf, KernelCapability::BpfSyscall, KernelCapability::BpfEvents]
    } else if bit == 8 {
        seq![KernelCapability::Ftrace, KernelCapability::Kprobes, KernelCapability::KprobeEvents]
    } else {
        Seq::empty()
    }
}

/// The requirements of the named sources a mode holds, concatenated in order.
pub open spec fn requirement_list(bits: u64) -> Seq<KernelCapability> {
    (if bits & 1 == 1 { required_for(1) } else { Seq::empty() }) + (if bits & 2 == 2 {
        required_for(2)
    } else {
        Seq::empty()
    }) + (if bits & 8 == 8 { required_for(8) } else { Seq::empty() })
}

/// The names of the named sources a mode holds, in order.
pub open spec fn mode_names(bits: u64) -> Seq<Seq<char>> {
    (if bits & 1 == 1 { seq![mode_name(1)] } else { Seq::empty() }) + (if bits & 2 == 2 {
        seq![mode_name(2)]
    } else {
        Seq::empty()
    }) + (if bits & 8 == 8 { seq![mode_name(8)] } else { Seq::empty() })
}

/// Names joined with `, `.
pub open spec fn joined(names: Seq<Seq<char>>) -> Seq<char>
    decreases names.len(),
{
    if names.len() == 0 {
        Seq::empty()
    } else if names.len() == 1 {
        names[0]
    } else {
        joined(names.drop_last()) + ", "@ + names.last()
    }
}

/// How a mode reads: its source names joined with `, `, or `none`.
pub open spec fn mode_text(bits: u64) -> Seq<char> {
    if mode_names(bits).len() == 0 {
        "none"@
    } else {
        joined(mode_names(bits))
    }
}

impl CaptureMode {
    /// No capture source.
    pub fn empty() -> (r: CaptureMode)
        ensures
            r.bits == 0,
    {
        CaptureMode { bits: 0 }
    }

    /// Kernel functions hooked through `BPF_PROG_TYPE_KPROBE`.
    pub fn ebpf_kprobe() -> (r: CaptureMode)
        ensures
            r.bits == 1,
    {
        CaptureMode { bits: 1 }
    }

    /// Kernel tracepoints read through eBPF.
    pub fn ebpf_tracepoint() -> (r: CaptureMode)
        ensures
            r.bits == 2,
    {
        CaptureMode { bits: 2 }
    }

    /// Non-eBPF kprobes through tracefs `kprobe_events`.
    pub fn tracefs_kprobe() -> (r: CaptureMode)
        ensures
            r.bits == 8,
    {
        CaptureMode { bits: 8 }
    }

    /// The default mode: eBPF kprobes.
    pub fn default_mode() -> (r: CaptureMode)
        ensures
            r.bits == 1,
    {
        Self::ebpf_kprobe()
    }

    /// Both modes' sources together.
    pub fn union(self, other: CaptureMode) -> (r: CaptureMode)
        ensures
            r.bits == self.bits | other.bits,
    {
        CaptureMode { bits: self.bits | other.bits }
    }

    /// Whether every source of `other` is in this mode.
    pub fn contains(self, other: CaptureMode) -> (r: bool)
        ensures
            r == (self.bits & other.bits == other.bits),
    {
        self.bits & other.bits == other.bits
    }

    /// Whether the mode holds no source.
    pub fn is_empty(self) -> (r: bool)
        ensures
            r == (self.bits == 0),
    {
        self.bits == 0
    }

    /// The names of the sources this mode holds.
    pub fn names(self) -> (r: Vec<&'static str>)
        ensures
            r@.len() == mode_names(self.bits).len(),
            forall|i: int| 0 <= i < r@.len() ==> (#[trigger] r@[i])@ == mode_names(self.bits)[i],
    {
        let mut v: Vec<&'static str> = Vec::new();
        let ghost names = mode_names(self.bits);
        let ghost a: Seq<Seq<char>> = if self.bits & 1 == 1 { seq![mode_name(1)] } else { Seq::empty() };
        let ghost b: Seq<Seq<char>> = if self.bits & 2 == 2 { seq![mode_name(2)] } else { Seq::empty() };
        let ghost c: Seq<Seq<char>> = if self.bits & 8 == 8 { seq![mode_name(8)] } else { Seq::empty() };
        if self.contains(Self::ebpf_kprobe()) {
            v.push("ebpf-kprobe");
        }
        assert(v@.len() == a.len() && forall|i: int| 0 <= i < v@.len() ==> (#[trigger] v@[i])@ == a[i]);
        if self.contains(Self::ebpf_tracepoint()) {
            v.push("ebpf-tracepoint");
        }
        assert(v@.len() == (a + b).len() && forall|i: int| 0 <= i < v@.len() ==> (#[trigger] v@[i])@ == (a + b)[i]);
        if self.contains(Self::tracefs_kprobe()) {
            v.push("tracefs-kprobe");
        }
        assert(names =~= a + b + c);
        v
    }

    /// How the mode reads.
    pub fn describe(self) -> (r: String)
        ensures
            r@ == mode_text(self.bits),
    {
        let names = self.names();
        let mut out: Vec<char> = Vec::new();
        if names.len() == 0 {
            crate::text::append_str(&mut out, "none");
            return crate::text::string_from_chars(out.as_slice());
        }
        let ghost all = mode_names(self.bits);
        crate::text::append_str(&mut out, names[0]);
        assert(all.take(1).drop_last() =~= Seq::<Seq<char>>::empty());
        let mut i: usize = 1;
        while i < names.len()
            invariant
                1 <= i <= names@.len(),
                names@.len() == all.len(),
                forall|k: int| 0 <= k < names@.len() ==> (#[trigger] names@[k])@ == all[k],
                out@ == joined(all.take(i as int)),
            decreases names@.len() - i,
        {
            crate::text::append_str(&mut out, ", ");
            crate::text::append_str(&mut out, names[i]);
            assert(all.take(i + 1).drop_last() =~= all.take(i as int));
            i = i + 1;
        }
        assert(all.take(i as int) =~= all);
        crate::text::string_from_chars(out.as_slice())
    }

    /// What one named source needs from the kernel; any other value needs nothing.
    pub fn required_capabilities_for_one(mode: CaptureMode) -> (r: Vec<KernelCapability>)
        ensures
            r@ == required_for(mode.bits),
    {
        let v = if mode.bits == 1 {
            vec![
                KernelCapability::Bpf,
                KernelCapability::BpfSyscall,
                KernelCapability::BpfEvents,
                KernelCapability::Kprobes,
            ]
        } else if mode.bits == 2 {
            vec![KernelCapability::Bpf, KernelCapability::BpfSyscall, KernelCapability::BpfEvents]
        } else if mode.bits == 8 {
            vec![KernelCapability::Ftrace, KernelCapability::Kprobes, KernelCapability::KprobeEvents]
        } else {
            Vec::new()
        };
        assert(v@ =~= required_for(mode.bits));
        v
    }

    /// What this mode needs from the kernel, each capability once, in the
    /// order the named sources and their requirements are listed.
    pub fn required_capabilities(self) -> (r: Vec<KernelCapability>)
        ensures
            r@ == dedup(requirement_list(self.bits)),
    {
        let mut all: Vec<KernelCapability> = Vec::new();
        if self.contains(Self::ebpf_kprobe()) {
            let mut one = Self::required_capabilities_for_one(Self::ebpf_kprobe());
            all.append(&mut one);
        }
        if self.contains(Self::ebpf_tracepoint()) {
            let mut one = Self::required_capabilities_for_one(Self::ebpf_tracepoint());
            all.append(&mut one);
        }
        if self.contains(Self::tracefs_kprobe()) {
            let mut one = Self::required_capabilities_for_one(Self::tracefs_kprobe());
            all.append(&mut one);
        }
        assert(all@ =~= requirement_list(self.bits));
        let mut out: Vec<KernelCapability> = Vec::new();
        let mut i: usize = 0;
        while i < all.len()
            invariant
                i <= all@.len(),
                out@ == dedup(all@.take(i as int)),
            decreases all@.len() - i,
        {
            let c = all[i];
            let mut seen = false;
            let mut j: usize = 0;
            while j < out.len()
                invariant
                    j <= out@.len(),
                    seen == out@.take(j as int).contains(c),
                decreases out@.len() - j,
            {
                proof {
                    assert(out@.take(j + 1) =~= out@.take(j as int).push(out@[j as int]));
                    if seen {
                        let w = choose|w: int| 0 <= w < j && out@.take(j as int)[w] == c;
                        assert(out@.take(j + 1)[w] == c);
                    }
                    if out@[j as int] == c {
                        assert(out@.take(j + 1)[j as int] == c);
                    }
                    if !seen && out@[j as int] != c {
                        assert forall|w: int| 0 <= w < j + 1 implies #[trigger] out@.take(j + 1)[w] != c by {
                            if w < j {
                                assert(out@.take(j + 1)[w] == out@.take(j as int)[w]);
                            }
                        }
                    }
                }
                if out[j] == c {
                    seen = true;
                }
                j = j + 1;
            }
            assert(out@.take(j as int) =~= out@);
            assert(all@.take(i + 1).drop_last() =~= all@.take(i as int));
            assert(all@.take(i + 1).last() == c);
            if !seen {
                out.push(c);
            }
            i = i + 1;
        }
        assert(all@.take(i as int) =~= all@);
        out
    }
}

/// A text split into lines as `str::lines` splits it: at `\n`, a line that a
/// `\n` ends losing one trailing `\r`, a last line without a `\n` kept as it
/// is, and no empty piece after a final line ending.
pub open spec fn config_lines(text: Seq<char>) -> Seq<Seq<char>> {
    lines_from(text, Seq::empty(), Seq::empty())
}

/// The lines of `rest` after the finished lines `done` and the open line `current`.
pub open spec fn lines_from(rest: Seq<char>, done: Seq<Seq<char>>, current: Seq<char>) -> Seq<Seq<char>>
    decreases rest.len(),
{
    if rest.len() == 0 {
        if current.len() == 0 {
            done
        } else {
            done.push(current)
        }
    } else if rest[0] == '\n' {
        lines_from(rest.drop_first(), done.push(strip_cr(current)), Seq::empty())
    } else {
        lines_from(rest.drop_first(), done, current.push(rest[0]))
    }
}

/// A line without one trailing carriage return.
pub open spec fn strip_cr(line: Seq<char>) -> Seq<char> {
    if line.len() > 0 && line.last() == '\r' {
        line.drop_last()
    } else {
        line
    }
}

/// Index of the first `c` in `s`, if any.
pub open spec fn first_index_of(s: Seq<char>, c: char) -> Option<int>
    decreases s.len(),
{
    if s.len() == 0 {
        None
    } else if s[0] == c {
        Some(0)
    } else {
        match first_index_of(s.drop_first(), c) {
            Some(i) => Some(i + 1),
            None => None,
        }
    }
}

/// The key of a `KEY=y` or `KEY=m` line, split at the first `=`.
pub open spec fn spec_enabled_key(line: Seq<char>) -> Option<Seq<char>> {
    match first_index_of(line, '=') {
        None => None,
        Some(i) => {
            let value = line.subrange(i + 1, line.len() as int);
            if value == "y"@ || value == "m"@ {
                Some(line.take(i))
            } else {
                None
            }
        },
    }
}

/// The keys a kernel `.config` text enables, in line order.
pub open spec fn enabled_keys_of(lines: Seq<Seq<char>>) -> Seq<Seq<char>>
    decreases lines.len(),
{
    if lines.len() == 0 {
        Seq::empty()
    } else {
        let before = enabled_keys_of(lines.drop_last());
        match spec_enabled_key(lines.last()) {
            Some(key) => before.push(key),
            None => before,
        }
    }
}

/// A key is enabled exactly when some line sets it, at its first `=`, to
/// `y` or `m`.
pub proof fn lemma_enabled_by_some_line(lines: Seq<Seq<char>>, key: Seq<char>)
    ensures
        enabled_keys_of(lines).contains(key) <==> exists|i: int|
            0 <= i < lines.len() && spec_enabled_key(#[trigger] lines[i]) == Some(key),
    decreases lines.len(),
{
    if lines.len() > 0 {
        let before = lines.drop_last();
        lemma_enabled_by_some_line(before, key);
        let keys = enabled_keys_of(before);
        if enabled_keys_of(lines).contains(key) {
            let k = choose|k: int| 0 <= k < enabled_keys_of(lines).len() && enabled_keys_of(lines)[k] == key;
            if spec_enabled_key(lines.last()) == Some(key) {
                assert(lines[lines.len() - 1] == lines.last());
            } else if spec_enabled_key(lines.last()) is Some {
                assert(k < keys.len());
                assert(keys[k] == key);
                assert(keys.contains(key));
                let i = choose|i: int| 0 <= i < before.len() && spec_enabled_key(#[trigger] before[i]) == Some(key);
                assert(lines[i] == before[i]);
            } else {
                assert(keys.contains(key));
                let i = choose|i: int| 0 <= i < before.len() && spec_enabled_key(#[trigger] before[i]) == Some(key);
                assert(lines[i] == before[i]);
            }
        }
        if exists|i: int| 0 <= i < lines.len() && spec_enabled_key(#[trigger] lines[i]) == Some(key) {
            let i = choose|i: int| 0 <= i < lines.len() && spec_enabled_key(#[trigger] lines[i]) == Some(key);
            if i == lines.len() - 1 {
                let all = enabled_keys_of(lines);
                assert(all == keys.push(key));
                assert(all[keys.len() as int] == key);
            } else {
                assert(before[i] == lines[i]);
                assert(keys.contains(key));
                let k = choose|k: int| 0 <= k < keys.len() && keys[k] == key;
                match spec_enabled_key(lines.last()) {
                    Some(last) => {
                        assert(keys.push(last)[k] == key);
                    },
                    None => {},
                }
            }
        }
    }
}

/// Texts with the same lines, in whatever order and however often each
/// stands, enable the same keys.
pub proof fn lemma_enabled_ignores_line_order(a: Seq<Seq<char>>, b: Seq<Seq<char>>, key: Seq<char>)
    requires
        forall|line: Seq<char>| a.contains(line) <==> b.contains(line),
    ensures
        enabled_keys_of(a).contains(key) <==> enabled_keys_of(b).contains(key),
{
    lemma_enabled_by_some_line(a, key);
    lemma_enabled_by_some_line(b, key);
    if exists|i: int| 0 <= i < a.len() && spec_enabled_key(#[trigger] a[i]) == Some(key) {
        let i = choose|i: int| 0 <= i < a.len() && spec_enabled_key(#[trigger] a[i]) == Some(key);
        assert(a.contains(a[i]));
        assert(b.contains(a[i]));
        let j = choose|j: int| 0 <= j < b.len() && b[j] == a[i];
        assert(spec_enabled_key(b[j]) == Some(key));
    }
    if exists|j: int| 0 <= j < b.len() && spec_enabled_key(#[trigger] b[j]) == Some(key) {
        let j = choose|j: int| 0 <= j < b.len() && spec_enabled_key(#[trigger] b[j]) == Some(key);
        assert(b.contains(b[j]));
        assert(a.contains(b[j]));
        let i = choose|i: int| 0 <= i < a.len() && a[i] == b[j];
        assert(spec_enabled_key(a[i]) == Some(key));
    }
}

/// The first `=` in a line, found left to right.
pub fn find_char(s: &[char], c: char) -> (r: Option<usize>)
    ensures
        r matches Some(i) ==> i < s@.len() && first_index_of(s@, c) == Some(i as int),
        r is None ==> first_index_of(s@, c) is None,
{
    let mut i: usize = 0;
    assert(s@.skip(0) =~= s@);
    while i < s.len()
        invariant
            i <= s@.len(),
            first_index_of(s@, c) == (match first_index_of(s@.skip(i as int), c) {
                Some(k) => Some(k + i),
                None => None::<int>,
            }),
        decreases s@.len() - i,
    {
        assert(s@.skip(i as int)[0] == s@[i as int]);
        assert(s@.skip(i as int).drop_first() =~= s@.skip(i + 1));
        if s[i] == c {
            return Some(i);
        }
        i = i + 1;
    }
    assert(s@.skip(i as int) =~= Seq::<char>::empty());
    None
}

/// The key of a line that enables a Kconfig option (`KEY=y` or `KEY=m`).
pub fn parse_enabled_key(line: &str) -> (r: Option<String>)
    ensures
        match spec_enabled_key(line@) {
            Some(key) => r matches Some(k) && k@ == key,
            None => r is None,
        },
{
    let chars = crate::text::chars_of(line);
    parse_enabled_key_chars(chars.as_slice())
}

fn parse_enabled_key_chars(chars: &[char]) -> (r: Option<String>)
    ensures
        match spec_enabled_key(chars@) {
            Some(key) => r matches Some(k) && k@ == key,
            None => r is None,
        },
{
    let eq = match find_char(chars, '=') {
        Some(eq) => eq,
        None => return None,
    };
    let rest = chars.len() - eq - 1;
    let enabled = rest == 1 && (chars[eq + 1] == 'y' || chars[eq + 1] == 'm');
    proof {
        reveal_strlit("y");
        reveal_strlit("m");
        let value = chars@.subrange(eq + 1, chars@.len() as int);
        assert("y"@ =~= seq!['y']);
        assert("m"@ =~= seq!['m']);
        assert(value.len() == rest);
        if enabled {
            assert(value[0] == chars@[eq + 1]);
            if chars@[eq + 1] == 'y' {
                assert(value =~= "y"@);
            } else {
                assert(value =~= "m"@);
            }
        } else {
            if value == "y"@ {
                assert(value.len() == 1);
                assert(value[0] == chars@[eq + 1]);
                assert(value[0] == 'y');
                assert(false);
            }
            if value == "m"@ {
                assert(value.len() == 1);
                assert(value[0] == chars@[eq + 1]);
                assert(value[0] == 'm');
                assert(false);
            }
        }
    }
    if !enabled {
        return None;
    }
    let mut key: Vec<char> = Vec::new();
    let mut i: usize = 0;
    while i < eq
        invariant
            i <= eq,
            eq < chars@.len(),
            key@ == chars@.take(i as int),
        decreases eq - i,
    {
        key.push(chars[i]);
        i = i + 1;
        assert(key@ =~= chars@.take(i as int));
    }
    Some(crate::text::string_from_chars(key.as_slice()))
}

/// A parsed kernel configuration: the Kconfig keys it enables.
#[derive(Debug, Clone, PartialEq, Eq)]
pub struct KernelConfig {
    pub enabled_keys: Vec<String>,
}

impl KernelConfig {
    /// The enabled keys as character sequences.
    pub open spec fn keys(self) -> Seq<Seq<char>> {
        self.enabled_keys@.map_values(|k: String| k@)
    }

    /// Parses the enabled Kconfig keys of a `.config` text.
    pub fn parse(text: &str) -> (r: KernelConfig)
        ensures
            r.keys() == enabled_keys_of(config_lines(text@)),
    {
        let chars = crate::text::chars_of(text);
        let mut keys: Vec<String> = Vec::new();
        let mut current: Vec<char> = Vec::new();
        let mut done: Ghost<Seq<Seq<char>>> = Ghost(Seq::empty());
        let mut i: usize = 0;
        assert(chars@.skip(0) =~= chars@);
        while i < chars.len()
            invariant
                i <= chars@.len(),
                config_lines(text@) == lines_from(chars@.skip(i as int), done@, current@),
                chars@ == text@,
                keys@.map_values(|k: String| k@) == enabled_keys_of(done@),
            decreases chars@.len() - i,
        {
            let c = chars[i];
            assert(chars@.skip(i as int)[0] == c);
            assert(chars@.skip(i as int).drop_first() =~= chars@.skip(i + 1));
            if c == '\n' {
                let line = strip_cr_chars(current.as_slice());
                proof {
                    assert(done@.push(line@).drop_last() =~= done@);
                }
                match parse_enabled_key_chars(line.as_slice()) {
                    Some(k) => {
                        keys.push(k);
                    },
                    None => {},
                }
                proof {
                    done@ = done@.push(line@);
                }
                assert(keys@.map_values(|k: String| k@) =~= enabled_keys_of(done@));
                current = Vec::new();
            } else {
                current.push(c);
            }
            i = i + 1;
        }
        assert(chars@.skip(i as int) =~= Seq::<char>::empty());
        if current.len() > 0 {
            let line = current;
            proof {
                assert(done@.push(line@).drop_last() =~= done@);
            }
            match parse_enabled_key_chars(line.as_slice()) {
                Some(k) => {
                    keys.push(k);
                },
                None => {},
            }
            proof {
                done@ = done@.push(line@);
            }
            assert(keys@.map_values(|k: String| k@) =~= enabled_keys_of(done@));
        }
        KernelConfig { enabled_keys: keys }
    }

    /// Whether a Kconfig key is enabled.
    pub fn is_enabled(&self, key: &str) -> (r: bool)
        ensures
            r == self.keys().contains(key@),
    {
        let mut i: usize = 0;
        while i < self.enabled_keys.len()
            invariant
                i <= self.enabled_keys@.len(),
                forall|j: int| 0 <= j < i ==> self.keys()[j] != key@,
            decreases self.enabled_keys@.len() - i,
        {
            if crate::platform::text_eq(self.enabled_keys[i].as_str(), key) {
                assert(self.keys()[i as int] == key@);
                return true;
            }
            i = i + 1;
        }
        false
    }
}

/// A line without one trailing carriage return.
fn strip_cr_chars(line: &[char]) -> (r: Vec<char>)
    ensures
        r@ == strip_cr(line@),
{
    let n = if line.len() > 0 && line[line.len() - 1] == '\r' {
        line.len() - 1
    } else {
        line.len()
    };
    let mut out: Vec<char> = Vec::new();
    let mut i: usize = 0;
    while i < n
        invariant
            i <= n,
            n <= line@.len(),
            out@ == line@.take(i as int),
        decreases n - i,
    {
        out.push(line[i]);
        i = i + 1;
        assert(out@ =~= line@.take(i as int));
    }
    assert(out@ =~= strip_cr(line@));
    out
}

impl KernelCapabilities {
    /// Whether this set holds a capability.
    pub open spec fn has(self, capability: KernelCapability) -> bool {
        has_capability(self.bits, capability)
    }

    /// The empty set.
    pub fn none() -> (r: KernelCapabilities)
        ensures
            r.bits == 0,
    {
        KernelCapabilities { bits: 0 }
    }

    /// The capabilities a kernel configuration enables: exactly those whose
    /// Kconfig key it enables.
    pub fn from_config(config: &KernelConfig) -> (r: KernelCapabilities)
        ensures
            forall|c: KernelCapability| #[trigger] r.has(c) <==> config.keys().contains(c.spec_config_key()),
            forall|c: KernelCapability| c.index() >= 13 ==> !r.has(c),
            r.bits < 0x2000,
            config.keys().len() == 0 ==> r.bits == 0,
    {
        let all = all_capability_list();
        let mut caps = Self::none();
        let mut i: usize = 0;
        proof {
            assert((1u64 << 0u64) == 1) by (bit_vector);
            assert forall|c: KernelCapability| !(#[trigger] caps.has(c)) by {
                lemma_index_injective(c, c);
                lemma_zero_has_none(c.index());
            }
        }
        while i < all.len()
            invariant
                i <= all@.len(),
                all@ == all_capabilities(),
                caps.bits < (1u64 << (i as u64)),
                forall|c: KernelCapability| #[trigger] caps.has(c) <==> (c.index() < i && config.keys().contains(c.spec_config_key())),
            decreases all@.len() - i,
        {
            let c = all[i];
            assert(c.index() == i) by {
                assert(all_capabilities()[i as int].index() == i);
            }
            if config.is_enabled(c.config_key()) {
                let before = caps;
                caps = caps.with(c);
                assert forall|d: KernelCapability| #[trigger] caps.has(d) <==> (d.index() < i + 1 && config.keys().contains(d.spec_config_key())) by {
                    lemma_index_injective(c, d);
                    lemma_index_injective(d, c);
                    lemma_bit_set(before.bits, c.index(), d.index());
                    assert(before.has(d) == (d.index() < i && config.keys().contains(d.spec_config_key())));
                    if d.index() == i {
                        assert(d == c);
                    }
                }
                proof { lemma_bits_bound(before.bits, i as u64); }
            } else {
                assert forall|d: KernelCapability| #[trigger] caps.has(d) <==> (d.index() < i + 1 && config.keys().contains(d.spec_config_key())) by {
                    lemma_index_injective(c, d);
                }
                proof { lemma_bits_bound(caps.bits, i as u64); }
            }
            i = i + 1;
        }
        assert((1u64 << 13u64) == 0x2000) by (bit_vector);
        assert forall|c: KernelCapability| c.index() >= 13 implies !caps.has(c) by {
            lemma_index_injective(c, c);
        }
        proof {
            if config.keys().len() == 0 {
                assert forall|c: KernelCapability| !has_capability(caps.bits, c) by {
                    assert(!config.keys().contains(c.spec_config_key()));
                    assert(!caps.has(c));
                }
                lemma_no_capability_bits(caps.bits);
            }
        }
        caps
    }

    /// Whether this set holds a capability.
    pub fn contains(self, capability: KernelCapability) -> (r: bool)
        ensures
            r == self.has(capability),
    {
        self.bits & capability.bit() != 0
    }

    /// Whether this set holds any basic eBPF capability.
    pub fn has_any_ebpf(self) -> (r: bool)
        ensures
            r == (self.has(KernelCapability::Bpf) || self.has(KernelCapability::BpfSyscall)
                || self.has(KernelCapability::BpfEvents)),
    {
        self.contains(KernelCapability::Bpf) || self.contains(KernelCapability::BpfSyscall)
            || self.contains(KernelCapability::BpfEvents)
    }

    /// The requirements of a mode that this set lacks, in requirement order.
    pub fn missing_for(self, mode: CaptureMode) -> (r: Vec<KernelCapability>)
        ensures
            r@ == dedup(requirement_list(mode.bits)).filter(|c: KernelCapability| !self.has(c)),
    {
        let required = mode.required_capabilities();
        let ghost keep = |c: KernelCapability| !self.has(c);
        let mut out: Vec<KernelCapability> = Vec::new();
        let mut i: usize = 0;
        while i < required.len()
            invariant
                i <= required@.len(),
                out@ == required@.take(i as int).filter(keep),
                keep == (|c: KernelCapability| !self.has(c)),
            decreases required@.len() - i,
        {
            let c = required[i];
            proof {
                reveal_with_fuel(Seq::<_>::filter, 1);
                assert(required@.take(i + 1).drop_last() =~= required@.take(i as int));
            }
            if !self.contains(c) {
                out.push(c);
            }
            i = i + 1;
        }
        assert(required@.take(i as int) =~= required@);
        out
    }

    /// Whether this set satisfies a non-empty mode.
    pub fn supports(self, mode: CaptureMode) -> (r: bool)
        ensures
            r == (mode.bits != 0 && dedup(requirement_list(mode.bits)).filter(
                |c: KernelCapability| !self.has(c),
            ).len() == 0),
    {
        !mode.is_empty() && self.missing_for(mode).len() == 0
    }

    /// The names of the capabilities this set holds, in declaration order.
    pub fn names(self) -> (r: Vec<&'static str>)
        ensures
            r@.len() == present_capabilities(self.bits, 13).len(),
            forall|i: int|
                0 <= i < r@.len() ==> (#[trigger] r@[i])@ == present_capabilities(
                    self.bits,
                    13,
                )[i].spec_name(),
    {
        let all = all_capability_list();
        let mut out: Vec<&'static str> = Vec::new();
        let mut i: usize = 0;
        while i < all.len()
            invariant
                i <= all@.len(),
                all@ == all_capabilities(),
                out@.len() == present_capabilities(self.bits, i as nat).len(),
                forall|k: int|
                    0 <= k < out@.len() ==> (#[trigger] out@[k])@ == present_capabilities(
                        self.bits,
                        i as nat,
                    )[k].spec_name(),
            decreases all@.len() - i,
        {
            let c = all[i];
            if self.contains(c) {
                out.push(c.name());
            }
            i = i + 1;
        }
        out
    }

    /// This set with one more capability.
    pub fn with(self, capability: KernelCapability) -> (r: KernelCapabilities)
        ensures
            r.bits == self.bits | (1u64 << capability.index()),
    {
        KernelCapabilities { bits: self.bits | capability.bit() }
    }
}

/// Where the kernel configuration is read from.
#[derive(Debug, Clone, PartialEq, Eq)]
pub enum KernelConfigSource {
    /// `/proc/config.gz`, decompressed with `zcat`.
    ProcConfigGz,
    /// A gzip-compressed configuration file, decompressed with `zcat`.
    GzipFile(String),
    /// A plain-text configuration file.
    TextFile(String),
}

impl KernelConfigSource {
    /// The default source: the running kernel's `/proc/config.gz`.
    pub fn default_source() -> (r: KernelConfigSource)
        ensures
            r == KernelConfigSource::ProcConfigGz,
    {
        KernelConfigSource::ProcConfigGz
    }

    /// The file a source reads, and whether it is decompressed with `zcat`.
    pub fn read_target(&self) -> (r: (&str, bool))
        ensures
            match *self {
                KernelConfigSource::ProcConfigGz => r.0@ == "/proc/config.gz"@ && r.1,
                KernelConfigSource::GzipFile(p) => r.0@ == p@ && r.1,
                KernelConfigSource::TextFile(p) => r.0@ == p@ && !r.1,
            },
    {
        match self {
            KernelConfigSource::ProcConfigGz => ("/proc/config.gz", true),
            KernelConfigSource::GzipFile(p) => (p.as_str(), true),
            KernelConfigSource::TextFile(p) => (p.as_str(), false),
        }
    }
}

/// Why reading the kernel configuration failed.
#[derive(Debug, Clone, PartialEq, Eq)]
pub enum KernelConfigError {
    /// Reading or running `zcat` failed, with the system's message.
    Io(String),
    /// `zcat` exited unsuccessfully on `path`, printing `stderr`.
    ZcatFailed { path: String, stderr: String },
    /// The configuration is not UTF-8, with the decoder's message.
    Utf8(String),
}

/// The text a configuration error is reported with.
pub open spec fn config_error_text(e: KernelConfigError) -> Seq<char> {
    match e {
        KernelConfigError::Io(m) => "failed to read kernel config: "@ + m@,
        KernelConfigError::ZcatFailed { path, stderr } => {
            let head = "failed to decompress `"@ + path@ + "`"@;
            if crate::text::trimmed(stderr@).len() == 0 {
                head
            } else {
                head + ": "@ + crate::text::trimmed(stderr@)
            }
        },
        KernelConfigError::Utf8(m) => "kernel config is not valid UTF-8: "@ + m@,
    }
}

impl KernelConfigError {
    /// The text the error is reported with.
    pub fn message(&self) -> (r: String)
        ensures
            r@ == config_error_text(*self),
    {
        let mut out: Vec<char> = Vec::new();
        match self {
            KernelConfigError::Io(m) => {
                crate::text::append_str(&mut out, "failed to read kernel config: ");
                crate::text::append_str(&mut out, m.as_str());
            },
            KernelConfigError::ZcatFailed { path, stderr } => {
                crate::text::append_str(&mut out, "failed to decompress `");
                crate::text::append_str(&mut out, path.as_str());
                crate::text::append_str(&mut out, "`");
                let detail = crate::text::trim_text(stderr.as_str());
                if !detail.is_empty() {
                    crate::text::append_str(&mut out, ": ");
                    crate::text::append_str(&mut out, detail);
                }
            },
            KernelConfigError::Utf8(m) => {
                crate::text::append_str(&mut out, "kernel config is not valid UTF-8: ");
                crate::text::append_str(&mut out, m.as_str());
            },
        }
        crate::text::string_from_chars(out.as_slice())
    }
}

/// Calls `String::from_utf8`: the text of `bytes` when they are valid UTF-8,
/// else the error's message. The message's text is not stated.
#[verifier::external_body]
fn string_from_utf8(bytes: Vec<u8>) -> (r: Result<String, String>)
    ensures
        r is Ok <==> vstd::utf8::valid_utf8(bytes@),
        r matches Ok(s) ==> s@ == vstd::utf8::decode_utf8(bytes@),
{
    match String::from_utf8(bytes) {
        Ok(s) => Ok(s),
        Err(e) => Err(e.to_string()),
    }
}

/// The outcome of `zcat` on `path`: its standard output as text when it
/// exited successfully, `ZcatFailed` with its standard error otherwise, and
/// `Utf8` when the output is not UTF-8.
pub fn zcat_outcome(path: String, success: bool, stdout: Vec<u8>, stderr: &[u8]) -> (r: Result<String, KernelConfigError>)
    ensures
        !success ==> (r matches Err(KernelConfigError::ZcatFailed { path: p, stderr: e }) && p == path && e@
            == crate::socket_ipc::utf8_lossy(stderr@)),
        success && vstd::utf8::valid_utf8(stdout@) ==> (r matches Ok(text) && text@ == vstd::utf8::decode_utf8(
            stdout@,
        )),
        success && !vstd::utf8::valid_utf8(stdout@) ==> r matches Err(KernelConfigError::Utf8(_)),
{
    if !success {
        return Err(KernelConfigError::ZcatFailed { path, stderr: crate::socket_ipc::lossy_text(stderr) });
    }
    match string_from_utf8(stdout) {
        Ok(text) => Ok(text),
        Err(message) => Err(KernelConfigError::Utf8(message)),
    }
}

} // verus!
