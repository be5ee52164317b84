//! Value objects: a bounded numeric identifier, a non-empty name, and a
//! non-empty list of tags drawn from a closed enumeration.  Each one validates
//! at construction, so a built value is valid by construction.

use vstd::prelude::*;

verus! {

/// The closed enumeration of tags an entity may carry.
#[derive(Clone, Copy, PartialEq, Eq, Structural)]
pub enum PokemonType {
    Electric,
    Fire,
}

/// The canonical text of a tag.
pub open spec fn tag_name(t: PokemonType) -> Seq<char> {
    match t {
        PokemonType::Electric => "Electric"@,
        PokemonType::Fire => "Fire"@,
    }
}

/// Whether a string names a member of the closed tag enumeration.
pub open spec fn is_tag_name(s: Seq<char>) -> bool {
    s == "Electric"@ || s == "Fire"@
}

impl PokemonType {
    /// Maps a string to its tag; rejects anything outside the enumeration.
    pub fn try_from(val: &String) -> (r: Result<PokemonType, ()>)
        ensures
            r is Ok <==> is_tag_name(val@),
            r matches Ok(t) ==> tag_name(t) == val@,
    {
        let electric: String = "Electric".to_owned();
        let fire: String = "Fire".to_owned();
        if *val == electric {
            Ok(PokemonType::Electric)
        } else if *val == fire {
            Ok(PokemonType::Fire)
        } else {
            Err(())
        }
    }

    /// The canonical text of this tag, as an owned string.
    pub fn name(&self) -> (r: String)
        ensures
            r@ == tag_name(*self),
    {
        match self {
            PokemonType::Electric => "Electric".to_owned(),
            PokemonType::Fire => "Fire".to_owned(),
        }
    }
}

/// A bounded identifier, valid strictly between 0 and 899.
#[derive(Clone, Copy, PartialEq, Eq, Structural)]
pub struct PokemonNumber(u16);

impl View for PokemonNumber {
    type V = u16;

    closed spec fn view(&self) -> u16 {
        self.0
    }
}

impl PokemonNumber {
    /// The range an identifier must lie in.
    pub open spec fn valid(val: u16) -> bool {
        0 < val < 899
    }

    /// Accepts exactly the identifiers strictly between 0 and 899.
    pub fn try_from(val: u16) -> (r: Result<PokemonNumber, ()>)
        ensures
            r is Ok <==> Self::valid(val),
            r matches Ok(n) ==> n@ == val,
    {
        if val > 0 && val < 899 {
            Ok(PokemonNumber(val))
        } else {
            Err(())
        }
    }

    /// The raw value of the identifier.
    pub fn value(&self) -> (r: u16)
        ensures
            r == self@,
    {
        self.0
    }

    pub fn pikachu() -> (r: Self)
        ensures
            r@ == 25,
    {
        PokemonNumber(25)
    }
}

/// Two identifiers with the same raw value are the same identifier.
pub broadcast proof fn lemma_number_view_injective(a: PokemonNumber, b: PokemonNumber)
    ensures
        #![trigger a@, b@]
        a@ == b@ ==> a == b,
{
}

/// A non-empty name.
pub struct PokemonName(String);

impl View for PokemonName {
    type V = Seq<char>;

    closed spec fn view(&self) -> Seq<char> {
        self.0@
    }
}

impl Clone for PokemonName {
    fn clone(&self) -> (r: Self)
        ensures
            r == *self,
    {
        PokemonName(self.0.clone())
    }
}

impl PokemonName {
    /// Accepts exactly the non-empty strings.
    pub fn try_from(val: String) -> (r: Result<PokemonName, ()>)
        ensures
            r is Ok <==> val@.len() > 0,
            r matches Ok(n) ==> n@ == val@,
    {
        if val.as_str().unicode_len() == 0 {
            Err(())
        } else {
            Ok(PokemonName(val))
        }
    }

    /// The name as an owned string.
    pub fn value(&self) -> (r: String)
        ensures
            r@ == self@,
    {
        self.0.clone()
    }

    pub fn pikachu() -> (r: Self)
        ensures
            r@ == "Pikachu"@,
    {
        PokemonName("Pikachu".to_owned())
    }

    pub fn charmader() -> (r: Self)
        ensures
            r@ == "Charmander"@,
    {
        PokemonName("Charmander".to_owned())
    }

    pub fn empty() -> (r: Self)
        ensures
            r@ == ""@,
    {
        PokemonName("".to_owned())
    }
}

/// A non-empty ordered list of tags.
pub struct PokemonTypes(Vec<PokemonType>);

impl View for PokemonTypes {
    type V = Seq<PokemonType>;

    closed spec fn view(&self) -> Seq<PokemonType> {
        self.0@
    }
}

impl Clone for PokemonTypes {
    fn clone(&self) -> (r: Self)
        ensures
            r@ == self@,
    {
        let mut out: Vec<PokemonType> = Vec::new();
        let mut i: usize = 0;
        while i < self.0.len()
            invariant
                i <= self.0.len(),
                out@ == self.0@.take(i as int),
            decreases self.0.len() - i,
        {
            out.push(self.0[i]);
            proof {
                assert(out@ =~= self.0@.take(i + 1 as int));
            }
            i += 1;
        }
        proof {
            assert(out@ =~= self.0@);
        }
        PokemonTypes(out)
    }
}

impl PokemonTypes {
    /// Accepts exactly the non-empty lists whose every element names a tag,
    /// and preserves the input order.
    pub fn try_from(val: Vec<String>) -> (r: Result<PokemonTypes, ()>)
        ensures
            r is Ok <==> (val@.len() > 0 && forall|i: int|
                0 <= i < val@.len() ==> is_tag_name(val@[i]@)),
            r matches Ok(ts) ==> ts@.len() == val@.len() && forall|i: int|
                0 <= i < val@.len() ==> tag_name(ts@[i]) == val@[i]@,
    {
        if val.len() == 0 {
            return Err(());
        }
        let mut pts: Vec<PokemonType> = Vec::new();
        let mut i: usize = 0;
        while i < val.len()
            invariant
                i <= val.len(),
                pts@.len() == i,
                forall|j: int| 0 <= j < i ==> is_tag_name(val@[j]@),
                forall|j: int| 0 <= j < i ==> tag_name(pts@[j]) == val@[j]@,
            decreases val.len() - i,
        {
            match PokemonType::try_from(&val[i]) {
                Ok(pt) => pts.push(pt),
                Err(_) => {
                    return Err(());
                },
            }
            i += 1;
        }
        Ok(PokemonTypes(pts))
    }

    /// How many tags the list carries.
    pub fn len(&self) -> (r: usize)
        ensures
            r == self@.len(),
    {
        self.0.len()
    }

    /// The canonical string of the tag at the given position.
    pub fn name_at(&self, i: usize) -> (r: String)
        requires
            i < self@.len(),
        ensures
            r@ == tag_name(self@[i as int]),
    {
        self.0[i].name()
    }

    /// The canonical strings of the tags, in order.
    pub fn names(&self) -> (r: Vec<String>)
        ensures
            r@.len() == self@.len(),
            forall|i: int| 0 <= i < r@.len() ==> r@[i]@ == tag_name(self@[i]),
    {
        let mut out: Vec<String> = Vec::new();
        let mut i: usize = 0;
        while i < self.0.len()
            invariant
                i <= self.0.len(),
                out@.len() == i,
                forall|j: int| 0 <= j < i ==> out@[j]@ == tag_name(self.0@[j]),
            decreases self.0.len() - i,
        {
            out.push(self.0[i].name());
            i += 1;
        }
        out
    }

    pub fn pikachu() -> (r: Self)
        ensures
            r@ == seq![PokemonType::Electric],
    {
        let mut v: Vec<PokemonType> = Vec::new();
        v.push(PokemonType::Electric);
        proof {
            assert(v@ =~= seq![PokemonType::Electric]);
        }
        PokemonTypes(v)
    }

    pub fn charmander() -> (r: Self)
        ensures
            r@ == seq![PokemonType::Fire],
    {
        let mut v: Vec<PokemonType> = Vec::new();
        v.push(PokemonType::Fire);
        proof {
            assert(v@ =~= seq![PokemonType::Fire]);
        }
        PokemonTypes(v)
    }
}

/// The stored record: an aggregate of the three value objects.  It can only
/// be built from already-validated parts, so construction cannot fail.
pub struct Pokemon {
    pub number: PokemonNumber,
    pub name: PokemonName,
    pub types: PokemonTypes,
}

impl Clone for Pokemon {
    fn clone(&self) -> (r: Self)
        ensures
            r.number == self.number,
            r.name == self.name,
            r.types@ == self.types@,
    {
        Pokemon {
            number: self.number,
            name: self.name.clone(),
            types: self.types.clone(),
        }
    }
}

impl Pokemon {
    pub fn new(number: PokemonNumber, name: PokemonName, types: PokemonTypes) -> (r: Self)
        ensures
            r.number == number,
            r.name == name,
            r.types == types,
    {
        Pokemon { number, name, types }
    }
}

} // verus!
