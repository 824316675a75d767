//! One logical processor as a CPU descriptor block describes it.
use crate::cpu_fields::{
    address_sizes_of, cache_size_of, decimal_of, field_value, find_field, flag_of, parse_address_sizes,
    parse_cache_size, parse_decimal, parse_words, parse_yes_no, strings_view, Decimal,
};
use crate::descriptor::{PairView, pairs_view};
use crate::error::Error;
use crate::text::{parse_u64, parse_u64_str, words};
use vstd::prelude::*;

verus! {

broadcast use vstd::string::group_string_axioms;

/// A logical processor.
#[derive(Debug)]
pub struct CpuInfo {
    /// Index of the logical processor.
    pub processor: u64,
    /// Vendor identifier.
    pub vendor_id: String,
    /// Family number.
    pub cpu_family: u64,
    /// Model number.
    pub model: u64,
    /// Full model name.
    pub model_name: String,
    /// Stepping.
    pub stepping: u64,
    /// Microcode revision, as written.
    pub microcode: String,
    /// Clock frequency in MHz.
    pub cpu_mhz: Decimal,
    /// Cache size in KB.
    pub cache_size_kb: u64,
    /// Physical socket the processor sits in.
    pub physical_id: u64,
    /// Logical processors on the same socket.
    pub siblings: u64,
    /// Core within its socket; siblings of one core share it.
    pub core_id: u64,
    /// Physical cores on the socket.
    pub cpu_cores: u64,
    /// APIC id.
    pub apicid: u64,
    /// Initial APIC id.
    pub initial_apicid: u64,
    /// Whether there is a floating-point unit.
    pub fpu: bool,
    /// Whether floating-point exceptions are reported.
    pub fpu_exception: bool,
    /// Highest `cpuid` level.
    pub cpuid_level: u64,
    /// Whether write protection is honoured.
    pub wp: bool,
    /// Capability flags.
    pub flags: Vec<String>,
    /// Virtualization flags, if the block lists them.
    pub vmx_flags: Option<Vec<String>>,
    /// Known defects, if the block lists them.
    pub bugs: Option<Vec<String>>,
    /// Synthetic benchmark value.
    pub bogomips: Decimal,
    /// `clflush` line size in bytes.
    pub clflush_size: u64,
    /// Cache alignment in bytes.
    pub cache_alignment: u64,
    /// Physical and virtual address widths in bits.
    pub address_sizes: (u64, u64),
    /// Power management string, if the block has one.
    pub power_management: Option<String>,
}

/// What is wrong with a descriptor block.
pub enum FieldFault {
    /// The key is absent.
    Missing(Seq<char>),
    /// The key's value does not read as its kind.
    Invalid(Seq<char>, Seq<char>),
}

/// How a field's value is read.
pub enum FieldKind {
    Count,
    Text,
    Flag,
    Number,
    CacheSize,
    AddressSizes,
}

pub open spec fn readable_as(kind: FieldKind, v: Seq<char>) -> bool {
    match kind {
        FieldKind::Count => parse_u64(v) is Some,
        FieldKind::Text => true,
        FieldKind::Flag => flag_of(v) is Some,
        FieldKind::Number => decimal_of(v) is Some,
        FieldKind::CacheSize => cache_size_of(v) is Some,
        FieldKind::AddressSizes => address_sizes_of(v) is Some,
    }
}

/// What is wrong, if anything, with the required field `key` of `b`.
pub open spec fn field_fault(b: Seq<PairView>, key: Seq<char>, kind: FieldKind) -> Option<FieldFault> {
    match field_value(b, key) {
        None => Some(FieldFault::Missing(key)),
        Some(v) => if readable_as(kind, v) {
            None
        } else {
            Some(FieldFault::Invalid(key, v))
        },
    }
}

/// Whether `e` is the error that reports `f`.
pub open spec fn reports(e: Error, f: FieldFault) -> bool {
    match (e, f) {
        (Error::MissingField { key }, FieldFault::Missing(k)) => key@ == k,
        (Error::ParseFailure { path, contents }, FieldFault::Invalid(k, v)) => path@ == k && contents@ == v,
        _ => false,
    }
}

pub open spec fn or_else(a: Option<FieldFault>, b: Option<FieldFault>) -> Option<FieldFault> {
    if a is Some {
        a
    } else {
        b
    }
}

/// The first fault of `b`, taking the required fields in their usual order.
pub open spec fn cpu_fault(b: Seq<PairView>) -> Option<FieldFault> {
    or_else(
        field_fault(b, "processor"@, FieldKind::Count),
    or_else(
        field_fault(b, "vendor_id"@, FieldKind::Text),
    or_else(
        field_fault(b, "cpu family"@, FieldKind::Count),
    or_else(
        field_fault(b, "model"@, FieldKind::Count),
    or_else(
        field_fault(b, "model name"@, FieldKind::Text),
    or_else(
        field_fault(b, "stepping"@, FieldKind::Count),
    or_else(
        field_fault(b, "microcode"@, FieldKind::Text),
    or_else(
        field_fault(b, "cpu MHz"@, FieldKind::Number),
    or_else(
        field_fault(b, "cache size"@, FieldKind::CacheSize),
    or_else(
        field_fault(b, "physical id"@, FieldKind::Count),
    or_else(
        field_fault(b, "siblings"@, FieldKind::Count),
    or_else(
        field_fault(b, "core id"@, FieldKind::Count),
    or_else(
        field_fault(b, "cpu cores"@, FieldKind::Count),
    or_else(
        field_fault(b, "apicid"@, FieldKind::Count),
    or_else(
        field_fault(b, "initial apicid"@, FieldKind::Count),
    or_else(
        field_fault(b, "fpu"@, FieldKind::Flag),
    or_else(
        field_fault(b, "fpu_exception"@, FieldKind::Flag),
    or_else(
        field_fault(b, "cpuid level"@, FieldKind::Count),
    or_else(
        field_fault(b, "wp"@, FieldKind::Flag),
    or_else(
        field_fault(b, "bogomips"@, FieldKind::Number),
    or_else(
        field_fault(b, "clflush size"@, FieldKind::Count),
    or_else(
        field_fault(b, "cache_alignment"@, FieldKind::Count),
    field_fault(b, "address sizes"@, FieldKind::AddressSizes)))))))))))))))))))))))
}

pub open spec fn value_of(b: Seq<PairView>, key: Seq<char>) -> Seq<char> {
    field_value(b, key).unwrap()
}

pub open spec fn opt_words(v: Option<Seq<char>>) -> Option<Seq<Seq<char>>> {
    match v {
        Some(s) => Some(words(s)),
        None => None,
    }
}

pub open spec fn opt_strings(v: Option<Vec<String>>) -> Option<Seq<Seq<char>>> {
    match v {
        Some(s) => Some(strings_view(s@)),
        None => None,
    }
}

pub open spec fn opt_text(v: Option<String>) -> Option<Seq<char>> {
    match v {
        Some(s) => Some(s@),
        None => None,
    }
}

/// `c` holds the fields of the fault-free block `b`, each read as its kind.
pub open spec fn cpu_matches(c: CpuInfo, b: Seq<PairView>) -> bool {
    &&& c.processor == parse_u64(value_of(b, "processor"@)).unwrap()
    &&& c.vendor_id@ == value_of(b, "vendor_id"@)
    &&& c.cpu_family == parse_u64(value_of(b, "cpu family"@)).unwrap()
    &&& c.model == parse_u64(value_of(b, "model"@)).unwrap()
    &&& c.model_name@ == value_of(b, "model name"@)
    &&& c.stepping == parse_u64(value_of(b, "stepping"@)).unwrap()
    &&& c.microcode@ == value_of(b, "microcode"@)
    &&& c.cpu_mhz == decimal_of(value_of(b, "cpu MHz"@)).unwrap()
    &&& c.cache_size_kb == cache_size_of(value_of(b, "cache size"@)).unwrap()
    &&& c.physical_id == parse_u64(value_of(b, "physical id"@)).unwrap()
    &&& c.siblings == parse_u64(value_of(b, "siblings"@)).unwrap()
    &&& c.core_id == parse_u64(value_of(b, "core id"@)).unwrap()
    &&& c.cpu_cores == parse_u64(value_of(b, "cpu cores"@)).unwrap()
    &&& c.apicid == parse_u64(value_of(b, "apicid"@)).unwrap()
    &&& c.initial_apicid == parse_u64(value_of(b, "initial apicid"@)).unwrap()
    &&& c.fpu == flag_of(value_of(b, "fpu"@)).unwrap()
    &&& c.fpu_exception == flag_of(value_of(b, "fpu_exception"@)).unwrap()
    &&& c.cpuid_level == parse_u64(value_of(b, "cpuid level"@)).unwrap()
    &&& c.wp == flag_of(value_of(b, "wp"@)).unwrap()
    &&& c.bogomips == decimal_of(value_of(b, "bogomips"@)).unwrap()
    &&& c.clflush_size == parse_u64(value_of(b, "clflush size"@)).unwrap()
    &&& c.cache_alignment == parse_u64(value_of(b, "cache_alignment"@)).unwrap()
    &&& c.address_sizes == address_sizes_of(value_of(b, "address sizes"@)).unwrap()
    &&& strings_view(c.flags@) == opt_words(field_value(b, "flags"@)).unwrap_or(Seq::empty())
    &&& opt_strings(c.vmx_flags) == opt_words(field_value(b, "vmx flags"@))
    &&& opt_strings(c.bugs) == opt_words(field_value(b, "bugs"@))
    &&& opt_text(c.power_management) == field_value(b, "power management"@)
}

/// What reading a block gives: the record it describes, or the error for its first fault.
pub open spec fn block_outcome(r: Result<CpuInfo, Error>, b: Seq<PairView>) -> bool {
    match r {
        Ok(c) => cpu_fault(b) is None && cpu_matches(c, b),
        Err(e) => cpu_fault(b) is Some && reports(e, cpu_fault(b).unwrap()),
    }
}

/// A block without `vendor_id` never reads as a record; unless its `processor`
/// value is malformed, what it reports is the missing `vendor_id` key.
pub proof fn lemma_missing_vendor_fails(b: Seq<PairView>)
    requires
        field_value(b, "vendor_id"@) is None,
    ensures
        cpu_fault(b) is Some,
        field_fault(b, "processor"@, FieldKind::Count) is None ==> cpu_fault(b) == Some(
            FieldFault::Missing("vendor_id"@),
        ),
{
}

/// The error for a missing key.
fn missing(key: &str) -> (e: Error)
    ensures
        reports(e, FieldFault::Missing(key@)),
{
    Error::MissingField { key: key.to_string() }
}

/// The error for a value that does not read.
fn invalid(key: &str, value: &String) -> (e: Error)
    ensures
        reports(e, FieldFault::Invalid(key@, value@)),
{
    Error::ParseFailure { path: key.to_string(), contents: value.clone() }
}

fn count_field(b: &Vec<(String, String)>, key: &str) -> (r: Result<u64, Error>)
    ensures
        match r {
            Ok(x) => field_fault(pairs_view(b@), key@, FieldKind::Count) is None
                && x == parse_u64(value_of(pairs_view(b@), key@)).unwrap(),
            Err(e) => field_fault(pairs_view(b@), key@, FieldKind::Count) is Some
                && reports(e, field_fault(pairs_view(b@), key@, FieldKind::Count).unwrap()),
        },
{
    match find_field(b, key) {
        None => Err(missing(key)),
        Some(i) => match parse_u64_str(b[i].1.as_str()) {
            Some(x) => Ok(x),
            None => Err(invalid(key, &b[i].1)),
        },
    }
}

fn text_field(b: &Vec<(String, String)>, key: &str) -> (r: Result<String, Error>)
    ensures
        match r {
            Ok(x) => field_fault(pairs_view(b@), key@, FieldKind::Text) is None
                && x@ == value_of(pairs_view(b@), key@),
            Err(e) => field_fault(pairs_view(b@), key@, FieldKind::Text) is Some
                && reports(e, field_fault(pairs_view(b@), key@, FieldKind::Text).unwrap()),
        },
{
    match find_field(b, key) {
        None => Err(missing(key)),
        Some(i) => Ok(b[i].1.clone()),
    }
}

fn flag_field(b: &Vec<(String, String)>, key: &str) -> (r: Result<bool, Error>)
    ensures
        match r {
            Ok(x) => field_fault(pairs_view(b@), key@, FieldKind::Flag) is None
                && x == flag_of(value_of(pairs_view(b@), key@)).unwrap(),
            Err(e) => field_fault(pairs_view(b@), key@, FieldKind::Flag) is Some
                && reports(e, field_fault(pairs_view(b@), key@, FieldKind::Flag).unwrap()),
        },
{
    match find_field(b, key) {
        None => Err(missing(key)),
        Some(i) => match parse_yes_no(b[i].1.as_str()) {
            Some(x) => Ok(x),
            None => Err(invalid(key, &b[i].1)),
        },
    }
}

fn number_field(b: &Vec<(String, String)>, key: &str) -> (r: Result<Decimal, Error>)
    ensures
        match r {
            Ok(x) => field_fault(pairs_view(b@), key@, FieldKind::Number) is None
                && x == decimal_of(value_of(pairs_view(b@), key@)).unwrap(),
            Err(e) => field_fault(pairs_view(b@), key@, FieldKind::Number) is Some
                && reports(e, field_fault(pairs_view(b@), key@, FieldKind::Number).unwrap()),
        },
{
    match find_field(b, key) {
        None => Err(missing(key)),
        Some(i) => match parse_decimal(b[i].1.as_str()) {
            Some(x) => Ok(x),
            None => Err(invalid(key, &b[i].1)),
        },
    }
}

fn cache_size_field(b: &Vec<(String, String)>, key: &str) -> (r: Result<u64, Error>)
    ensures
        match r {
            Ok(x) => field_fault(pairs_view(b@), key@, FieldKind::CacheSize) is None
                && x == cache_size_of(value_of(pairs_view(b@), key@)).unwrap(),
            Err(e) => field_fault(pairs_view(b@), key@, FieldKind::CacheSize) is Some
                && reports(e, field_fault(pairs_view(b@), key@, FieldKind::CacheSize).unwrap()),
        },
{
    match find_field(b, key) {
        None => Err(missing(key)),
        Some(i) => match parse_cache_size(b[i].1.as_str()) {
            Some(x) => Ok(x),
            None => Err(invalid(key, &b[i].1)),
        },
    }
}

fn address_sizes_field(b: &Vec<(String, String)>, key: &str) -> (r: Result<(u64, u64), Error>)
    ensures
        match r {
            Ok(x) => field_fault(pairs_view(b@), key@, FieldKind::AddressSizes) is None
                && x == address_sizes_of(value_of(pairs_view(b@), key@)).unwrap(),
            Err(e) => field_fault(pairs_view(b@), key@, FieldKind::AddressSizes) is Some
                && reports(e, field_fault(pairs_view(b@), key@, FieldKind::AddressSizes).unwrap()),
        },
{
    match find_field(b, key) {
        None => Err(missing(key)),
        Some(i) => match parse_address_sizes(b[i].1.as_str()) {
            Some(x) => Ok(x),
            None => Err(invalid(key, &b[i].1)),
        },
    }
}

/// Reads one descriptor block into a processor record. The first required
/// field that is absent, or whose value does not read as its kind, is
/// reported; `flags`, `vmx flags`, `bugs` and `power management` are optional.
#[verifier::rlimit(50)]
pub fn parse_single_cpu(b: &Vec<(String, String)>) -> (r: Result<CpuInfo, Error>)
    ensures
        block_outcome(r, pairs_view(b@)),
{
    let processor = match count_field(b, "processor") {
        Ok(x) => x,
        Err(e) => {
            return Err(e);
        },
    };
    let vendor_id = match text_field(b, "vendor_id") {
        Ok(x) => x,
        Err(e) => {
            return Err(e);
        },
    };
    let cpu_family = match count_field(b, "cpu family") {
        Ok(x) => x,
        Err(e) => {
            return Err(e);
        },
    };
    let model = match count_field(b, "model") {
        Ok(x) => x,
        Err(e) => {
            return Err(e);
        },
    };
    let model_name = match text_field(b, "model name") {
        Ok(x) => x,
        Err(e) => {
            return Err(e);
        },
    };
    let stepping = match count_field(b, "stepping") {
        Ok(x) => x,
        Err(e) => {
            return Err(e);
        },
    };
    let microcode = match text_field(b, "microcode") {
        Ok(x) => x,
        Err(e) => {
            return Err(e);
        },
    };
    let cpu_mhz = match number_field(b, "cpu MHz") {
        Ok(x) => x,
        Err(e) => {
            return Err(e);
        },
    };
    let cache_size_kb = match cache_size_field(b, "cache size") {
        Ok(x) => x,
        Err(e) => {
            return Err(e);
        },
    };
    let physical_id = match count_field(b, "physical id") {
        Ok(x) => x,
        Err(e) => {
            return Err(e);
        },
    };
    let siblings = match count_field(b, "siblings") {
        Ok(x) => x,
        Err(e) => {
            return Err(e);
        },
    };
    let core_id = match count_field(b, "core id") {
        Ok(x) => x,
        Err(e) => {
            return Err(e);
        },
    };
    let cpu_cores = match count_field(b, "cpu cores") {
        Ok(x) => x,
        Err(e) => {
            return Err(e);
        },
    };
    let apicid = match count_field(b, "apicid") {
        Ok(x) => x,
        Err(e) => {
            return Err(e);
        },
    };
    let initial_apicid = match count_field(b, "initial apicid") {
        Ok(x) => x,
        Err(e) => {
            return Err(e);
        },
    };
    let fpu = match flag_field(b, "fpu") {
        Ok(x) => x,
        Err(e) => {
            return Err(e);
        },
    };
    let fpu_exception = match flag_field(b, "fpu_exception") {
        Ok(x) => x,
        Err(e) => {
            return Err(e);
        },
    };
    let cpuid_level = match count_field(b, "cpuid level") {
        Ok(x) => x,
        Err(e) => {
            return Err(e);
        },
    };
    let wp = match flag_field(b, "wp") {
        Ok(x) => x,
        Err(e) => {
            return Err(e);
        },
    };
    let bogomips = match number_field(b, "bogomips") {
        Ok(x) => x,
        Err(e) => {
            return Err(e);
        },
    };
    let clflush_size = match count_field(b, "clflush size") {
        Ok(x) => x,
        Err(e) => {
            return Err(e);
        },
    };
    let cache_alignment = match count_field(b, "cache_alignment") {
        Ok(x) => x,
        Err(e) => {
            return Err(e);
        },
    };
    let address_sizes = match address_sizes_field(b, "address sizes") {
        Ok(x) => x,
        Err(e) => {
            return Err(e);
        },
    };
    let flags = match find_field(b, "flags") {
        Some(i) => parse_words(b[i].1.as_str()),
        None => {
            let none: Vec<String> = Vec::new();
            assert(strings_view(none@) =~= Seq::<Seq<char>>::empty());
            none
        },
    };
    let vmx_flags = match find_field(b, "vmx flags") {
        Some(i) => Some(parse_words(b[i].1.as_str())),
        None => None,
    };
    let bugs = match find_field(b, "bugs") {
        Some(i) => Some(parse_words(b[i].1.as_str())),
        None => None,
    };
    let power_management = match find_field(b, "power management") {
        Some(i) => Some(b[i].1.clone()),
        None => None,
    };
    Ok(CpuInfo {
        processor,
        vendor_id,
        cpu_family,
        model,
        model_name,
        stepping,
        microcode,
        cpu_mhz,
        cache_size_kb,
        physical_id,
        siblings,
        core_id,
        cpu_cores,
        apicid,
        initial_apicid,
        fpu,
        fpu_exception,
        cpuid_level,
        wp,
        flags,
        vmx_flags,
        bugs,
        bogomips,
        clflush_size,
        cache_alignment,
        address_sizes,
        power_management,
    })
}


impl CpuInfo {
    /// Index of the logical processor.
    pub fn processor(&self) -> (r: u64)
        ensures
            r == self.processor,
    {
        self.processor
    }

    /// Vendor identifier.
    pub fn vendor_id(&self) -> (r: &str)
        ensures
            r@ == self.vendor_id@,
    {
        self.vendor_id.as_str()
    }

    /// Family number.
    pub fn cpu_family(&self) -> (r: u64)
        ensures
            r == self.cpu_family,
    {
        self.cpu_family
    }

    /// Model number.
    pub fn model(&self) -> (r: u64)
        ensures
            r == self.model,
    {
        self.model
    }

    /// Full model name.
    pub fn model_name(&self) -> (r: &str)
        ensures
            r@ == self.model_name@,
    {
        self.model_name.as_str()
    }

    /// Stepping.
    pub fn stepping(&self) -> (r: u64)
        ensures
            r == self.stepping,
    {
        self.stepping
    }

    /// Microcode revision, as written.
    pub fn microcode(&self) -> (r: &str)
        ensures
            r@ == self.microcode@,
    {
        self.microcode.as_str()
    }

    /// Clock frequency in MHz.
    pub fn cpu_mhz(&self) -> (r: Decimal)
        ensures
            r == self.cpu_mhz,
    {
        self.cpu_mhz
    }

    /// Cache size in KB.
    pub fn cache_size_kb(&self) -> (r: u64)
        ensures
            r == self.cache_size_kb,
    {
        self.cache_size_kb
    }

    /// Physical socket the processor sits in.
    pub fn physical_id(&self) -> (r: u64)
        ensures
            r == self.physical_id,
    {
        self.physical_id
    }

    /// Logical processors on the same socket.
    pub fn siblings(&self) -> (r: u64)
        ensures
            r == self.siblings,
    {
        self.siblings
    }

    /// Core within its socket; siblings of one core share it.
    pub fn core_id(&self) -> (r: u64)
        ensures
            r == self.core_id,
    {
        self.core_id
    }

    /// Physical cores on the socket.
    pub fn cpu_cores(&self) -> (r: u64)
        ensures
            r == self.cpu_cores,
    {
        self.cpu_cores
    }

    /// APIC id.
    pub fn apicid(&self) -> (r: u64)
        ensures
            r == self.apicid,
    {
        self.apicid
    }

    /// Initial APIC id.
    pub fn initial_apicid(&self) -> (r: u64)
        ensures
            r == self.initial_apicid,
    {
        self.initial_apicid
    }

    /// Whether there is a floating-point unit.
    pub fn has_fpu(&self) -> (r: bool)
        ensures
            r == self.fpu,
    {
        self.fpu
    }

    /// Whether floating-point exceptions are reported.
    pub fn has_fpu_exception(&self) -> (r: bool)
        ensures
            r == self.fpu_exception,
    {
        self.fpu_exception
    }

    /// Highest `cpuid` level.
    pub fn cpuid_level(&self) -> (r: u64)
        ensures
            r == self.cpuid_level,
    {
        self.cpuid_level
    }

    /// Whether write protection is honoured.
    pub fn has_wp(&self) -> (r: bool)
        ensures
            r == self.wp,
    {
        self.wp
    }

    /// Capability flags.
    pub fn flags(&self) -> (r: &[String])
        ensures
            r@ == self.flags@,
    {
        self.flags.as_slice()
    }

    /// Virtualization flags, if the block lists them.
    pub fn vmx_flags(&self) -> (r: Option<&[String]>)
        ensures
            match (r, self.vmx_flags) {
                (Some(a), Some(b)) => a@ == b@,
                (None, None) => true,
                _ => false,
            },
    {
        match &self.vmx_flags {
            Some(v) => Some(v.as_slice()),
            None => None,
        }
    }

    /// Known defects, if the block lists them.
    pub fn bugs(&self) -> (r: Option<&[String]>)
        ensures
            match (r, self.bugs) {
                (Some(a), Some(b)) => a@ == b@,
                (None, None) => true,
                _ => false,
            },
    {
        match &self.bugs {
            Some(v) => Some(v.as_slice()),
            None => None,
        }
    }

    /// Synthetic benchmark value.
    pub fn bogomips(&self) -> (r: Decimal)
        ensures
            r == self.bogomips,
    {
        self.bogomips
    }

    /// `clflush` line size in bytes.
    pub fn clflush_size(&self) -> (r: u64)
        ensures
            r == self.clflush_size,
    {
        self.clflush_size
    }

    /// Cache alignment in bytes.
    pub fn cache_alignment(&self) -> (r: u64)
        ensures
            r == self.cache_alignment,
    {
        self.cache_alignment
    }

    /// Physical and virtual address widths in bits.
    pub fn address_sizes(&self) -> (r: (u64, u64))
        ensures
            r == self.address_sizes,
    {
        self.address_sizes
    }

    /// Power management string, if the block has one.
    pub fn power_management(&self) -> (r: Option<&str>)
        ensures
            match (r, self.power_management) {
                (Some(a), Some(b)) => a@ == b@,
                (None, None) => true,
                _ => false,
            },
    {
        match &self.power_management {
            Some(v) => Some(v.as_str()),
            None => None,
        }
    }
}

} // verus!
