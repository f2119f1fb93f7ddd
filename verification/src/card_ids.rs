use vstd::prelude::*;

verus! {

/// Identifier of a card of the catalog: the expansion, the number in it and
/// the card's name.
#[derive(Clone, Copy, Debug, PartialEq, Eq, Hash, Structural)]
pub enum CardId {
    A1001Bulbasaur,
    A1002Ivysaur,
    A1005Caterpie,
    A1006Metapod,
    A1007Butterfree,
    A1018Bellsprout,
    A1019Weepinbell,
    A1020Victreebel,
    A1033Charmander,
    A1130Ralts,
    A1131Kirlia,
    A1132Gardevoir,
    A1176Koffing,
    A1177Weezing,
    A2a071ArceusEx,
    A3122SolgaleoEx,
    A3a027Shiinotic,
    A3b034SylveonEx,
    PA001Potion,
    PA005PokeBall,
    PA007ProfessorsResearch,
    A1225Sabrina,
    A2147GiantCape,
}

/// The printed name of the card.
pub open spec fn card_name(id: CardId) -> Seq<char> {
    match id {
        CardId::A1001Bulbasaur => "Bulbasaur"@,
        CardId::A1002Ivysaur => "Ivysaur"@,
        CardId::A1005Caterpie => "Caterpie"@,
        CardId::A1006Metapod => "Metapod"@,
        CardId::A1007Butterfree => "Butterfree"@,
        CardId::A1018Bellsprout => "Bellsprout"@,
        CardId::A1019Weepinbell => "Weepinbell"@,
        CardId::A1020Victreebel => "Victreebel"@,
        CardId::A1033Charmander => "Charmander"@,
        CardId::A1130Ralts => "Ralts"@,
        CardId::A1131Kirlia => "Kirlia"@,
        CardId::A1132Gardevoir => "Gardevoir"@,
        CardId::A1176Koffing => "Koffing"@,
        CardId::A1177Weezing => "Weezing"@,
        CardId::A2a071ArceusEx => "Arceus ex"@,
        CardId::A3122SolgaleoEx => "Solgaleo ex"@,
        CardId::A3a027Shiinotic => "Shiinotic"@,
        CardId::A3b034SylveonEx => "Sylveon ex"@,
        CardId::PA001Potion => "Potion"@,
        CardId::PA005PokeBall => "Poke Ball"@,
        CardId::PA007ProfessorsResearch => "Professor's Research"@,
        CardId::A1225Sabrina => "Sabrina"@,
        CardId::A2147GiantCape => "Giant Cape"@,
    }
}

/// The identifier as it is written in the source: the variant's own name.
pub open spec fn card_id_label(id: CardId) -> Seq<char> {
    match id {
        CardId::A1001Bulbasaur => "A1001Bulbasaur"@,
        CardId::A1002Ivysaur => "A1002Ivysaur"@,
        CardId::A1005Caterpie => "A1005Caterpie"@,
        CardId::A1006Metapod => "A1006Metapod"@,
        CardId::A1007Butterfree => "A1007Butterfree"@,
        CardId::A1018Bellsprout => "A1018Bellsprout"@,
        CardId::A1019Weepinbell => "A1019Weepinbell"@,
        CardId::A1020Victreebel => "A1020Victreebel"@,
        CardId::A1033Charmander => "A1033Charmander"@,
        CardId::A1130Ralts => "A1130Ralts"@,
        CardId::A1131Kirlia => "A1131Kirlia"@,
        CardId::A1132Gardevoir => "A1132Gardevoir"@,
        CardId::A1176Koffing => "A1176Koffing"@,
        CardId::A1177Weezing => "A1177Weezing"@,
        CardId::A2a071ArceusEx => "A2a071ArceusEx"@,
        CardId::A3122SolgaleoEx => "A3122SolgaleoEx"@,
        CardId::A3a027Shiinotic => "A3a027Shiinotic"@,
        CardId::A3b034SylveonEx => "A3b034SylveonEx"@,
        CardId::PA001Potion => "PA001Potion"@,
        CardId::PA005PokeBall => "PA005PokeBall"@,
        CardId::PA007ProfessorsResearch => "PA007ProfessorsResearch"@,
        CardId::A1225Sabrina => "A1225Sabrina"@,
        CardId::A2147GiantCape => "A2147GiantCape"@,
    }
}

impl CardId {
    /// The printed name of the card.
    pub fn name(self) -> (r: &'static str)
        ensures
            r@ == card_name(self),
    {
        match self {
            CardId::A1001Bulbasaur => "Bulbasaur",
            CardId::A1002Ivysaur => "Ivysaur",
            CardId::A1005Caterpie => "Caterpie",
            CardId::A1006Metapod => "Metapod",
            CardId::A1007Butterfree => "Butterfree",
            CardId::A1018Bellsprout => "Bellsprout",
            CardId::A1019Weepinbell => "Weepinbell",
            CardId::A1020Victreebel => "Victreebel",
            CardId::A1033Charmander => "Charmander",
            CardId::A1130Ralts => "Ralts",
            CardId::A1131Kirlia => "Kirlia",
            CardId::A1132Gardevoir => "Gardevoir",
            CardId::A1176Koffing => "Koffing",
            CardId::A1177Weezing => "Weezing",
            CardId::A2a071ArceusEx => "Arceus ex",
            CardId::A3122SolgaleoEx => "Solgaleo ex",
            CardId::A3a027Shiinotic => "Shiinotic",
            CardId::A3b034SylveonEx => "Sylveon ex",
            CardId::PA001Potion => "Potion",
            CardId::PA005PokeBall => "Poke Ball",
            CardId::PA007ProfessorsResearch => "Professor's Research",
            CardId::A1225Sabrina => "Sabrina",
            CardId::A2147GiantCape => "Giant Cape",
        }
    }

    /// The identifier as it is written in the source.
    pub fn label(self) -> (r: &'static str)
        ensures
            r@ == card_id_label(self),
    {
        match self {
            CardId::A1001Bulbasaur => "A1001Bulbasaur",
            CardId::A1002Ivysaur => "A1002Ivysaur",
            CardId::A1005Caterpie => "A1005Caterpie",
            CardId::A1006Metapod => "A1006Metapod",
            CardId::A1007Butterfree => "A1007Butterfree",
            CardId::A1018Bellsprout => "A1018Bellsprout",
            CardId::A1019Weepinbell => "A1019Weepinbell",
            CardId::A1020Victreebel => "A1020Victreebel",
            CardId::A1033Charmander => "A1033Charmander",
            CardId::A1130Ralts => "A1130Ralts",
            CardId::A1131Kirlia => "A1131Kirlia",
            CardId::A1132Gardevoir => "A1132Gardevoir",
            CardId::A1176Koffing => "A1176Koffing",
            CardId::A1177Weezing => "A1177Weezing",
            CardId::A2a071ArceusEx => "A2a071ArceusEx",
            CardId::A3122SolgaleoEx => "A3122SolgaleoEx",
            CardId::A3a027Shiinotic => "A3a027Shiinotic",
            CardId::A3b034SylveonEx => "A3b034SylveonEx",
            CardId::PA001Potion => "PA001Potion",
            CardId::PA005PokeBall => "PA005PokeBall",
            CardId::PA007ProfessorsResearch => "PA007ProfessorsResearch",
            CardId::A1225Sabrina => "A1225Sabrina",
            CardId::A2147GiantCape => "A2147GiantCape",
        }
    }
}

} // verus!
