use vstd::prelude::*;

verus! {

/// A city on the board, in the board's order: west, midwest, east, south.
#[derive(Copy, Clone, Debug, PartialEq, Eq, Structural, PartialOrd, Ord)]
pub enum City {
    // west
    Boise,
    Denver,
    LosAngeles,
    Portland,
    Reno,
    SaltLakeCity,
    SanFrancisco,
    SantaFe,
    // midwest
    Chicago,
    Cincinnati,
    Duluth,
    Fargo,
    KansasCity,
    Omaha,
    StLouis,
    StPaul,
    // east
    Albany,
    Boston,
    NewYork,
    Pittsburgh,
    Washington,
    // south
    Atlanta,
    Charleston,
    Dallas,
    Houston,
    Memphis,
    NewOrleans,
    SanAntonio,
}

/// The number of cities.
pub const CITY_COUNT: usize = 28;

/// The number of donation cards.
pub const CARD_COUNT: usize = 20;

/// The position of a city in the board's order.
pub open spec fn city_index(c: City) -> int {
    match c {
        City::Boise => 0,
        City::Denver => 1,
        City::LosAngeles => 2,
        City::Portland => 3,
        City::Reno => 4,
        City::SaltLakeCity => 5,
        City::SanFrancisco => 6,
        City::SantaFe => 7,
        City::Chicago => 8,
        City::Cincinnati => 9,
        City::Duluth => 10,
        City::Fargo => 11,
        City::KansasCity => 12,
        City::Omaha => 13,
        City::StLouis => 14,
        City::StPaul => 15,
        City::Albany => 16,
        City::Boston => 17,
        City::NewYork => 18,
        City::Pittsburgh => 19,
        City::Washington => 20,
        City::Atlanta => 21,
        City::Charleston => 22,
        City::Dallas => 23,
        City::Houston => 24,
        City::Memphis => 25,
        City::NewOrleans => 26,
        City::SanAntonio => 27,
    }
}

/// How many of a city's spaces can be blocked.
pub open spec fn city_spaces(c: City) -> int {
    match c {
        City::Boise => 1,
        City::Denver => 3,
        City::LosAngeles => 3,
        City::Portland => 1,
        City::Reno => 1,
        City::SaltLakeCity => 1,
        City::SanFrancisco => 5,
        City::SantaFe => 1,
        City::Chicago => 5,
        City::Cincinnati => 1,
        City::Duluth => 1,
        City::Fargo => 1,
        City::KansasCity => 3,
        City::Omaha => 1,
        City::StLouis => 3,
        City::StPaul => 1,
        City::Albany => 3,
        City::Boston => 3,
        City::NewYork => 5,
        City::Pittsburgh => 3,
        City::Washington => 3,
        City::Atlanta => 3,
        City::Charleston => 1,
        City::Dallas => 1,
        City::Houston => 3,
        City::Memphis => 1,
        City::NewOrleans => 5,
        City::SanAntonio => 1,
    }
}

/// The name of a city as printed on the board.
pub open spec fn city_name(c: City) -> &'static str {
    match c {
        City::Boise => "Boise",
        City::Denver => "Denver",
        City::LosAngeles => "Los Angeles",
        City::Portland => "Portland",
        City::Reno => "Reno",
        City::SaltLakeCity => "Salt Lake City",
        City::SanFrancisco => "San Francisco",
        City::SantaFe => "Santa Fe",
        City::Chicago => "Chicago",
        City::Cincinnati => "Cincinnati",
        City::Duluth => "Duluth",
        City::Fargo => "Fargo",
        City::KansasCity => "Kansas City",
        City::Omaha => "Omaha",
        City::StLouis => "St Louis",
        City::StPaul => "St Paul",
        City::Albany => "Albany",
        City::Boston => "Boston",
        City::NewYork => "New York",
        City::Pittsburgh => "Pittsburgh",
        City::Washington => "Washington",
        City::Atlanta => "Atlanta",
        City::Charleston => "Charleston",
        City::Dallas => "Dallas",
        City::Houston => "Houston",
        City::Memphis => "Memphis",
        City::NewOrleans => "New Orleans",
        City::SanAntonio => "San Antonio",
    }
}

/// The region a city lies in.
pub open spec fn city_class(c: City) -> Seq<char> {
    if city_index(c) < 8 {
        seq!['w', 'e', 's', 't']
    } else if city_index(c) < 16 {
        seq!['m', 'i', 'd', 'w', 'e', 's', 't']
    } else if city_index(c) < 21 {
        seq!['e', 'a', 's', 't']
    } else {
        seq!['s', 'o', 'u', 't', 'h']
    }
}

/// The cities printed on donation card `idx`, in the card's order.
pub open spec fn card_cities(idx: int) -> Seq<City> {
    if idx == 0 {
        seq![City::SaltLakeCity, City::Reno]
    } else if idx == 1 {
        seq![City::StLouis, City::Chicago]
    } else if idx == 2 {
        seq![City::Boston, City::Washington]
    } else if idx == 3 {
        seq![City::NewOrleans, City::Houston]
    } else if idx == 4 {
        seq![City::SanFrancisco, City::LosAngeles]
    } else if idx == 5 {
        seq![City::Cincinnati, City::Duluth, City::StLouis, City::KansasCity]
    } else if idx == 6 {
        seq![City::Albany, City::NewYork, City::Washington, City::Pittsburgh]
    } else if idx == 7 {
        seq![City::NewOrleans, City::Atlanta]
    } else if idx == 8 {
        seq![City::Boston, City::NewYork]
    } else if idx == 9 {
        seq![City::Chicago, City::Omaha]
    } else if idx == 10 {
        seq![City::Fargo, City::StPaul]
    } else if idx == 11 {
        seq![City::Pittsburgh, City::NewYork]
    } else if idx == 12 {
        seq![City::SanAntonio, City::Memphis, City::Dallas]
    } else if idx == 13 {
        seq![City::Portland, City::Boise, City::Denver, City::LosAngeles]
    } else if idx == 14 {
        seq![City::NewYork, City::Chicago, City::NewOrleans, City::SanFrancisco]
    } else if idx == 15 {
        seq![City::Pittsburgh, City::Boston, City::Albany]
    } else if idx == 16 {
        seq![City::SanFrancisco, City::SantaFe]
    } else if idx == 17 {
        seq![City::NewOrleans, City::Atlanta, City::Houston, City::Charleston]
    } else if idx == 18 {
        seq![City::SanFrancisco, City::Denver]
    } else {
        seq![City::KansasCity, City::Chicago]
    }
}

impl City {
    /// The city's position in the board's order.
    pub fn index(self) -> (r: usize)
        ensures
            r == city_index(self),
    {
        match self {
            City::Boise => 0,
            City::Denver => 1,
            City::LosAngeles => 2,
            City::Portland => 3,
            City::Reno => 4,
            City::SaltLakeCity => 5,
            City::SanFrancisco => 6,
            City::SantaFe => 7,
            City::Chicago => 8,
            City::Cincinnati => 9,
            City::Duluth => 10,
            City::Fargo => 11,
            City::KansasCity => 12,
            City::Omaha => 13,
            City::StLouis => 14,
            City::StPaul => 15,
            City::Albany => 16,
            City::Boston => 17,
            City::NewYork => 18,
            City::Pittsburgh => 19,
            City::Washington => 20,
            City::Atlanta => 21,
            City::Charleston => 22,
            City::Dallas => 23,
            City::Houston => 24,
            City::Memphis => 25,
            City::NewOrleans => 26,
            City::SanAntonio => 27,
        }
    }

    /// The city at position `i` of the board's order.
    pub fn from_index(i: usize) -> (c: City)
        requires
            i < CITY_COUNT,
        ensures
            city_index(c) == i,
    {
        match i {
            0 => City::Boise,
            1 => City::Denver,
            2 => City::LosAngeles,
            3 => City::Portland,
            4 => City::Reno,
            5 => City::SaltLakeCity,
            6 => City::SanFrancisco,
            7 => City::SantaFe,
            8 => City::Chicago,
            9 => City::Cincinnati,
            10 => City::Duluth,
            11 => City::Fargo,
            12 => City::KansasCity,
            13 => City::Omaha,
            14 => City::StLouis,
            15 => City::StPaul,
            16 => City::Albany,
            17 => City::Boston,
            18 => City::NewYork,
            19 => City::Pittsburgh,
            20 => City::Washington,
            21 => City::Atlanta,
            22 => City::Charleston,
            23 => City::Dallas,
            24 => City::Houston,
            25 => City::Memphis,
            26 => City::NewOrleans,
            _ => City::SanAntonio,
        }
    }

    /// How many of the city's spaces can be blocked.
    pub fn spaces(self) -> (r: usize)
        ensures
            r == city_spaces(self),
    {
        match self {
            City::NewYork | City::Chicago | City::NewOrleans | City::SanFrancisco => 5,
            City::Albany
            | City::Boston
            | City::Pittsburgh
            | City::Washington
            | City::KansasCity
            | City::StLouis
            | City::Atlanta
            | City::Houston
            | City::Denver
            | City::LosAngeles => 3,
            _ => 1,
        }
    }

    /// The name of the city as printed on the board.
    pub fn name(self) -> (r: &'static str)
        ensures
            r@ == city_name(self)@,
    {
        match self {
            City::Boise => "Boise",
            City::Denver => "Denver",
            City::LosAngeles => "Los Angeles",
            City::Portland => "Portland",
            City::Reno => "Reno",
            City::SaltLakeCity => "Salt Lake City",
            City::SanFrancisco => "San Francisco",
            City::SantaFe => "Santa Fe",
            City::Chicago => "Chicago",
            City::Cincinnati => "Cincinnati",
            City::Duluth => "Duluth",
            City::Fargo => "Fargo",
            City::KansasCity => "Kansas City",
            City::Omaha => "Omaha",
            City::StLouis => "St Louis",
            City::StPaul => "St Paul",
            City::Albany => "Albany",
            City::Boston => "Boston",
            City::NewYork => "New York",
            City::Pittsburgh => "Pittsburgh",
            City::Washington => "Washington",
            City::Atlanta => "Atlanta",
            City::Charleston => "Charleston",
            City::Dallas => "Dallas",
            City::Houston => "Houston",
            City::Memphis => "Memphis",
            City::NewOrleans => "New Orleans",
            City::SanAntonio => "San Antonio",
        }
    }

    /// The region the city lies in.
    pub fn class(self) -> (r: &'static str)
        ensures
            r@ == city_class(self),
    {
        let r = if self.index() < 8 {
            "west"
        } else if self.index() < 16 {
            "midwest"
        } else if self.index() < 21 {
            "east"
        } else {
            "south"
        };
        proof {
            reveal_strlit("west");
            reveal_strlit("midwest");
            reveal_strlit("east");
            reveal_strlit("south");
        }
        r
    }
}

/// The cities printed on donation card `idx`, in the card's order.
pub fn cities_of_card(idx: u8) -> (r: Vec<City>)
    requires
        idx < CARD_COUNT,
    ensures
        r@ == card_cities(idx as int),
{
    if idx == 0 {
        let r = vec![City::SaltLakeCity, City::Reno];
        assert(r@ =~= card_cities(idx as int));
        r
    } else if idx == 1 {
        let r = vec![City::StLouis, City::Chicago];
        assert(r@ =~= card_cities(idx as int));
        r
    } else if idx == 2 {
        let r = vec![City::Boston, City::Washington];
        assert(r@ =~= card_cities(idx as int));
        r
    } else if idx == 3 {
        let r = vec![City::NewOrleans, City::Houston];
        assert(r@ =~= card_cities(idx as int));
        r
    } else if idx == 4 {
        let r = vec![City::SanFrancisco, City::LosAngeles];
        assert(r@ =~= card_cities(idx as int));
        r
    } else if idx == 5 {
        let r = vec![City::Cincinnati, City::Duluth, City::StLouis, City::KansasCity];
        assert(r@ =~= card_cities(idx as int));
        r
    } else if idx == 6 {
        let r = vec![City::Albany, City::NewYork, City::Washington, City::Pittsburgh];
        assert(r@ =~= card_cities(idx as int));
        r
    } else if idx == 7 {
        let r = vec![City::NewOrleans, City::Atlanta];
        assert(r@ =~= card_cities(idx as int));
        r
    } else if idx == 8 {
        let r = vec![City::Boston, City::NewYork];
        assert(r@ =~= card_cities(idx as int));
        r
    } else if idx == 9 {
        let r = vec![City::Chicago, City::Omaha];
        assert(r@ =~= card_cities(idx as int));
        r
    } else if idx == 10 {
        let r = vec![City::Fargo, City::StPaul];
        assert(r@ =~= card_cities(idx as int));
        r
    } else if idx == 11 {
        let r = vec![City::Pittsburgh, City::NewYork];
        assert(r@ =~= card_cities(idx as int));
        r
    } else if idx == 12 {
        let r = vec![City::SanAntonio, City::Memphis, City::Dallas];
        assert(r@ =~= card_cities(idx as int));
        r
    } else if idx == 13 {
        let r = vec![City::Portland, City::Boise, City::Denver, City::LosAngeles];
        assert(r@ =~= card_cities(idx as int));
        r
    } else if idx == 14 {
        let r = vec![City::NewYork, City::Chicago, City::NewOrleans, City::SanFrancisco];
        assert(r@ =~= card_cities(idx as int));
        r
    } else if idx == 15 {
        let r = vec![City::Pittsburgh, City::Boston, City::Albany];
        assert(r@ =~= card_cities(idx as int));
        r
    } else if idx == 16 {
        let r = vec![City::SanFrancisco, City::SantaFe];
        assert(r@ =~= card_cities(idx as int));
        r
    } else if idx == 17 {
        let r = vec![City::NewOrleans, City::Atlanta, City::Houston, City::Charleston];
        assert(r@ =~= card_cities(idx as int));
        r
    } else if idx == 18 {
        let r = vec![City::SanFrancisco, City::Denver];
        assert(r@ =~= card_cities(idx as int));
        r
    } else {
        let r = vec![City::KansasCity, City::Chicago];
        assert(r@ =~= card_cities(idx as int));
        r
    }
}

} // verus!
