//! Bit-preserving conversions of single values.
//!
//! A conversion reads the bytes of a value of one type as a value of another
//! type. No byte is altered, added or dropped. It takes place only where the
//! oracle allows it, and otherwise reports the tier at which it was denied.

use crate::options::Neglect;
use crate::options::SafeTransmuteOptions;
use crate::options::TransmuteOptions;
use crate::oracle::check;
use crate::oracle::verdict;
use crate::oracle::Denial;
use crate::oracle::Verdict;
use crate::stability::Type;
use crate::stability::TypeModel;
use vstd::prelude::*;

verus! {

/// A value: its type and the bytes that hold it.
pub struct ValueModel {
    pub ty: TypeModel,
    pub bits: Seq<u8>,
}

impl ValueModel {
    /// There are as many bytes as the type's size says.
    pub open spec fn wf(self) -> bool {
        self.bits.len() == self.ty.layout.size
    }

    /// Whether the bytes are a legal instance of the type.
    pub open spec fn valid(self) -> bool {
        self.ty.layout.admits(self.bits)
    }
}

/// A value of a described type, as held at run time.
#[derive(Debug)]
pub struct Value {
    ty: Type,
    bits: Vec<u8>,
}

impl View for Value {
    type V = ValueModel;

    closed spec fn view(&self) -> ValueModel {
        ValueModel { ty: self.ty@, bits: self.bits@ }
    }
}

impl Value {
    /// Every value at run time has as many bytes as its type's size says.
    #[verifier::type_invariant]
    pub open spec fn well_formed(self) -> bool {
        self@.wf()
    }

    /// The value of type `ty` that `bits` holds; `None` unless there are as
    /// many bytes as the size of `ty` says.
    pub fn new(ty: Type, bits: Vec<u8>) -> (r: Option<Value>)
        ensures
            r is Some <==> bits@.len() == ty@.layout.size,
            r matches Some(value) ==> value@ == (ValueModel { ty: ty@, bits: bits@ }),
    {
        if bits.len() != ty.layout.size() {
            return None;
        }
        Some(Value { ty, bits })
    }

    /// The type of the value.
    pub fn ty(&self) -> (r: &Type)
        ensures
            r@ == self@.ty,
    {
        &self.ty
    }

    /// The bytes of the value.
    pub fn bits(&self) -> (r: &Vec<u8>)
        ensures
            r@ == self@.bits,
    {
        &self.bits
    }

    /// Gives up the value for its bytes.
    pub fn into_bits(self) -> (r: Vec<u8>)
        ensures
            r@ == self@.bits,
    {
        self.bits
    }

    /// Whether the bytes are a legal instance of the value's type.
    pub fn is_valid(&self) -> (r: bool)
        ensures
            r == self@.valid(),
    {
        self.ty.layout.validity().admits(self.bits.as_slice())
    }
}

/// What reading `src` as a value of `dst` gives: where the oracle allows it,
/// the same bytes as a value of `dst`; otherwise the reason of the denial.
pub open spec fn transmuted(src: ValueModel, dst: TypeModel, neglect: Neglect) -> Result<
    ValueModel,
    Denial,
> {
    match verdict(src.ty, dst, neglect) {
        Verdict::Allowed => Ok(ValueModel { ty: dst, bits: src.bits }),
        Verdict::Denied(denial) => Err(denial),
    }
}

/// The result of a conversion, seen through the view of its value.
pub open spec fn outcome<T: View<V = ValueModel>>(r: Result<T, Denial>) -> Result<
    ValueModel,
    Denial,
> {
    match r {
        Ok(value) => Ok(value@),
        Err(denial) => Err(denial),
    }
}

/// Reads the bytes of a value of `Src` as a value of `Self`.
///
/// The counterpart of [`TransmuteInto`].
pub trait TransmuteFrom<Src: View<V = ValueModel>, N: TransmuteOptions = ()>: Sized + View<
    V = ValueModel,
> {
    /// Reads `src` as a value of type `dst`, with every check made but, where
    /// `N` says so, that of stability.
    fn transmute_from(src: Src, dst: &Type) -> (r: Result<Self, Denial>) where
        N: SafeTransmuteOptions,

        ensures
            outcome(r) == transmuted(src@, dst@, N::neglect()),
    ;

    /// Reads `src` as a value of type `dst`, with the checks that `N` names
    /// left out. The caller answers for each of them.
    fn unsafe_transmute_from(src: Src, dst: &Type) -> (r: Result<Self, Denial>)
        ensures
            outcome(r) == transmuted(src@, dst@, N::neglect()),
    ;
}

/// Reads the bytes of a value of `Self` as a value of `Dst`.
///
/// The counterpart of [`TransmuteFrom`], and had by every type for which
/// that is implemented.
pub trait TransmuteInto<Dst: View<V = ValueModel>, N: TransmuteOptions = ()>: Sized + View<
    V = ValueModel,
> {
    /// Reads `self` as a value of type `dst`, with every check made but,
    /// where `N` says so, that of stability.
    fn transmute_into(self, dst: &Type) -> (r: Result<Dst, Denial>) where
        N: SafeTransmuteOptions,

        ensures
            outcome(r) == transmuted(self@, dst@, N::neglect()),
    ;

    /// Reads `self` as a value of type `dst`, with the checks that `N` names
    /// left out. The caller answers for each of them.
    fn unsafe_transmute_into(self, dst: &Type) -> (r: Result<Dst, Denial>)
        ensures
            outcome(r) == transmuted(self@, dst@, N::neglect()),
    ;
}

impl<Src, Dst, N> TransmuteInto<Dst, N> for Src where
    Src: View<V = ValueModel>,
    Dst: TransmuteFrom<Src, N>,
    N: TransmuteOptions,
 {
    fn transmute_into(self, dst: &Type) -> (r: Result<Dst, Denial>) where N: SafeTransmuteOptions {
        Dst::transmute_from(self, dst)
    }

    fn unsafe_transmute_into(self, dst: &Type) -> (r: Result<Dst, Denial>) {
        Dst::unsafe_transmute_from(self, dst)
    }
}

/// The reinterpretation itself: the bytes of `src` pass, as they are, into a
/// value of type `dst`. The source is used up by it.
fn reinterpret(src: Value, dst: &Type, neglect: Neglect) -> (r: Result<Value, Denial>)
    ensures
        outcome(r) == transmuted(src@, dst@, neglect),
{
    proof {
        use_type_invariant(&src);
    }
    match check(&src.ty, dst, neglect) {
        Verdict::Allowed => Ok(Value { ty: dst.clone(), bits: src.bits }),
        Verdict::Denied(denial) => Err(denial),
    }
}

impl<N: TransmuteOptions> TransmuteFrom<Value, N> for Value {
    fn transmute_from(src: Value, dst: &Type) -> (r: Result<Value, Denial>) where
        N: SafeTransmuteOptions,
     {
        reinterpret(src, dst, N::selection())
    }

    fn unsafe_transmute_from(src: Value, dst: &Type) -> (r: Result<Value, Denial>) {
        reinterpret(src, dst, N::selection())
    }
}

/// Reads the bytes of `src` as a value of type `dst`, safely.
///
/// `N` is the empty selection `()`, [`NeglectStability`] or a tuple of
/// these: no other option is accepted here.
///
/// [`NeglectStability`]: crate::options::NeglectStability
pub fn safe_transmute<Src, Dst, N>(src: Src, dst: &Type) -> (r: Result<Dst, Denial>) where
    Src: TransmuteInto<Dst, N>,
    Dst: View<V = ValueModel>,
    N: SafeTransmuteOptions,

    ensures
        outcome(r) == transmuted(src@, dst@, N::neglect()),
        N::neglect().safe(),
{
    proof {
        N::lemma_safe();
    }
    src.transmute_into(dst)
}

/// Reads the bytes of `src` as a value of type `dst`, with the checks that
/// `N` names left out. The caller answers for each of them.
pub fn unsafe_transmute<Src, Dst, N>(src: Src, dst: &Type) -> (r: Result<Dst, Denial>) where
    Src: TransmuteInto<Dst, N>,
    Dst: View<V = ValueModel>,
    N: TransmuteOptions,

    ensures
        outcome(r) == transmuted(src@, dst@, N::neglect()),
{
    src.unsafe_transmute_into(dst)
}

/// A conversion never alters a byte, and what it gives is a value of the
/// destination type with as many bytes as that type's size says.
pub proof fn lemma_bits_kept(src: ValueModel, dst: TypeModel, neglect: Neglect)
    requires
        src.wf(),
    ensures
        match transmuted(src, dst, neglect) {
            Ok(value) => value.bits == src.bits && value.ty == dst && value.wf(),
            Err(_) => true,
        },
{
}

/// There and back again: where the oracle allows reading a value as another
/// type and reading the result as the first type again, with nothing
/// neglected, the two conversions give back the value that was started from.
pub proof fn lemma_round_trip(value: ValueModel, other: TypeModel)
    requires
        verdict(value.ty, other, Neglect { stability: false, alignment: false, validity: false })
            == Verdict::Allowed,
        verdict(other, value.ty, Neglect { stability: false, alignment: false, validity: false })
            == Verdict::Allowed,
    ensures
        ({
            let nothing = Neglect { stability: false, alignment: false, validity: false };
            &&& transmuted(value, other, nothing) is Ok
            &&& transmuted(value, other, nothing)->Ok_0.bits == value.bits
            &&& transmuted(transmuted(value, other, nothing)->Ok_0, value.ty, nothing) == Ok::<
                ValueModel,
                Denial,
            >(value)
        }),
{
}

} // verus!
