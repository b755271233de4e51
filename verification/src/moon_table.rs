//! The hand-authored moon catalog of the main game: every moon, its
//! kingdom, its reward weight, and its prerequisites, in catalog order.

use vstd::prelude::*;
use crate::kingdom::KingdomName;
use crate::moon::{Moon, MoonID, Moons};

verus! {

fn cap_moons(moons: &mut Vec<Moon>)
    ensures
        final(moons)@.len() == old(moons)@.len() + 30,
        (forall|i: int| 0 <= i < old(moons)@.len() ==> (#[trigger] old(moons)@[i]).wf())
            ==> (forall|i: int|
            0 <= i < final(moons)@.len() ==> (#[trigger] final(moons)@[i]).wf()),
        forall|i: int|
            old(moons)@.len() <= i < final(moons)@.len() ==> (#[trigger] final(moons)@[i]).spec_kingdom() == KingdomName::Cap,
        forall|i: int|
            0 <= i < old(moons)@.len() ==> (#[trigger] final(moons)@[i]).spec_kingdom()
                == old(moons)@[i].spec_kingdom(),
{
    let mut m = Moon::new("Frog-Jumping Above the Fog", KingdomName::Cap);
    m.add_prereq_kingdom(KingdomName::Cascade);
    moons.push(m);
    let mut m = Moon::new("Frog-Jumping from the Top Deck", KingdomName::Cap);
    m.add_prereq_kingdom(KingdomName::Cascade);
    moons.push(m);
    let mut m = Moon::new("Cap Kingdom Timer Challenge 1", KingdomName::Cap);
    m.add_prereq_kingdom(KingdomName::Cascade);
    moons.push(m);
    let mut m = Moon::new("Good Evening, Captain Toad!", KingdomName::Cap);
    m.add_prereq_kingdom(KingdomName::Cascade);
    moons.push(m);
    let mut m = Moon::new("Shopping in Bonneton", KingdomName::Cap);
    m.add_prereq_kingdom(KingdomName::Cascade);
    moons.push(m);
    let mut m = Moon::new("Skimming the Poison Tide", KingdomName::Cap);
    m.add_prereq_kingdom(KingdomName::Cascade);
    moons.push(m);
    let mut m = Moon::new("Slipping Through the Poison Tide", KingdomName::Cap);
    m.add_prereq_kingdom(KingdomName::Cascade);
    moons.push(m);
    let mut m = Moon::new("Push-Block Peril", KingdomName::Cap);
    m.add_prereq_kingdom(KingdomName::Cascade);
    moons.push(m);
    let mut m = Moon::new("Hidden Among the Push-Blocks", KingdomName::Cap);
    m.add_prereq_kingdom(KingdomName::Cascade);
    moons.push(m);
    let mut m = Moon::new("Searching the Frog Pond", KingdomName::Cap);
    m.add_prereq_kingdom(KingdomName::Cascade);
    moons.push(m);
    let mut m = Moon::new("Secrets of the Frog Pond", KingdomName::Cap);
    m.add_prereq_kingdom(KingdomName::Cascade);
    moons.push(m);
    let mut m = Moon::new("The Forgotten Treasure", KingdomName::Cap);
    m.add_prereq_kingdom(KingdomName::Mushroom);
    moons.push(m);
    let mut m = Moon::new("Taxi Flying Through Bonneton", KingdomName::Cap);
    m.add_prereq_kingdom(KingdomName::Mushroom);
    moons.push(m);
    let mut m = Moon::new("Bonneter Blockade", KingdomName::Cap);
    m.add_prereq_kingdom(KingdomName::Mushroom);
    moons.push(m);
    let cap15: usize = moons.len();
    let mut m = Moon::new("Cap Kingdom Regular Cup", KingdomName::Cap);
    m.add_prereq_kingdom(KingdomName::Mushroom);
    moons.push(m);
    let mut m = Moon::new("Peach in the Cap Kingdom", KingdomName::Cap);
    m.add_prereq_kingdom(KingdomName::Mushroom);
    moons.push(m);
    let mut m = Moon::new("Next to Glasses Bridge", KingdomName::Cap);
    m.add_prereq_kingdom(KingdomName::Mushroom);
    moons.push(m);
    let mut m = Moon::new("Danger Sign", KingdomName::Cap);
    m.add_prereq_kingdom(KingdomName::Mushroom);
    moons.push(m);
    let mut m = Moon::new("Under the Big One's Brim", KingdomName::Cap);
    m.add_prereq_kingdom(KingdomName::Mushroom);
    moons.push(m);
    let mut m = Moon::new("Fly to the Edge of the Fog", KingdomName::Cap);
    m.add_prereq_kingdom(KingdomName::Mushroom);
    moons.push(m);
    let mut m = Moon::new("Spin the Hat, Get a Prize", KingdomName::Cap);
    m.add_prereq_kingdom(KingdomName::Mushroom);
    moons.push(m);
    let mut m = Moon::new("Hidden in a Sunken Hat", KingdomName::Cap);
    m.add_prereq_kingdom(KingdomName::Mushroom);
    moons.push(m);
    let mut m = Moon::new("Fog-Shrouded Platform", KingdomName::Cap);
    m.add_prereq_kingdom(KingdomName::Mushroom);
    moons.push(m);
    let mut m = Moon::new("Fog-Shrouded Platform", KingdomName::Cap);
    m.add_prereq_kingdom(KingdomName::Mushroom);
    moons.push(m);
    let mut m = Moon::new("Caught Hopping Near the Ship!", KingdomName::Cap);
    m.add_prereq_kingdom(KingdomName::Mushroom);
    moons.push(m);
    let mut m = Moon::new("Taking Notes: In the Fog", KingdomName::Cap);
    m.add_prereq_kingdom(KingdomName::Mushroom);
    moons.push(m);
    let mut m = Moon::new("Cap Kingdom Timer Challenge 2", KingdomName::Cap);
    m.add_prereq_kingdom(KingdomName::Mushroom);
    moons.push(m);
    let mut m = Moon::new("Cap Kingdom Master Cup", KingdomName::Cap);
    m.add_prereq_kingdom(KingdomName::Mushroom);
    m.add_prereq_moon(cap15);
    moons.push(m);
    let mut m = Moon::new("Roll On and On", KingdomName::Cap);
    m.add_prereq_kingdom(KingdomName::Mushroom);
    moons.push(m);
    let mut m = Moon::new("Precision Rolling", KingdomName::Cap);
    m.add_prereq_kingdom(KingdomName::Mushroom);
    moons.push(m);
}

fn cascade_moons(moons: &mut Vec<Moon>) -> (r: usize)
    ensures
        final(moons)@.len() == old(moons)@.len() + 41,
        (forall|i: int| 0 <= i < old(moons)@.len() ==> (#[trigger] old(moons)@[i]).wf())
            ==> (forall|i: int|
            0 <= i < final(moons)@.len() ==> (#[trigger] final(moons)@[i]).wf()),
        forall|i: int|
            old(moons)@.len() <= i < final(moons)@.len() ==> (#[trigger] final(moons)@[i]).spec_kingdom() == KingdomName::Cascade,
        forall|i: int|
            0 <= i < old(moons)@.len() ==> (#[trigger] final(moons)@[i]).spec_kingdom()
                == old(moons)@[i].spec_kingdom(),
        r < final(moons)@.len(),
{
    let cascade1: usize = moons.len();
    let m = Moon::new("Our First Power Moon", KingdomName::Cascade);
    moons.push(m);
    let cascade2: usize = moons.len();
    let mut m = Moon::new_multi("Multi Moon Atop the Falls", KingdomName::Cascade);
    m.add_prereq_moon(cascade1);
    moons.push(m);
    let mut m = Moon::new("Chomp Through the Rocks", KingdomName::Cascade);
    m.add_prereq_moon(cascade1);
    moons.push(m);
    let mut m = Moon::new("Behind the Waterfall", KingdomName::Cascade);
    m.add_prereq_moon(cascade1);
    moons.push(m);
    let mut m = Moon::new("On Top of the Rubble", KingdomName::Cascade);
    m.add_prereq_moon(cascade2);
    moons.push(m);
    let mut m = Moon::new("Treasure of the Waterfall Basin", KingdomName::Cascade);
    m.add_prereq_moon(cascade2);
    moons.push(m);
    let mut m = Moon::new("Above a High Cliff", KingdomName::Cascade);
    m.add_prereq_moon(cascade2);
    moons.push(m);
    let mut m = Moon::new("Across the Floating Isles", KingdomName::Cascade);
    m.add_prereq_moon(cascade2);
    moons.push(m);
    let mut m = Moon::new("Cascade Kingdom Timer Challenge 1", KingdomName::Cascade);
    m.add_prereq_moon(cascade2);
    moons.push(m);
    let mut m = Moon::new("Cascade Kingdom Timer Challenge 2", KingdomName::Cascade);
    m.add_prereq_moon(cascade2);
    moons.push(m);
    let mut m = Moon::new("Good Morning, Captain Toad!", KingdomName::Cascade);
    m.add_prereq_moon(cascade2);
    moons.push(m);
    let mut m = Moon::new("Dinosaur Nest: Big Cleanup!", KingdomName::Cascade);
    m.add_prereq_moon(cascade2);
    moons.push(m);
    let mut m = Moon::new("Dinosaur Nest: Running Wild!", KingdomName::Cascade);
    m.add_prereq_moon(cascade2);
    moons.push(m);
    let mut m = Moon::new("Nice Shot with the Chain Chomp!", KingdomName::Cascade);
    m.add_prereq_moon(cascade2);
    moons.push(m);
    let mut m = Moon::new("Very Nice Shot with the Chain Chomp!", KingdomName::Cascade);
    m.add_prereq_moon(cascade2);
    moons.push(m);
    let mut m = Moon::new("Past the Chasm Lifts", KingdomName::Cascade);
    m.add_prereq_moon(cascade2);
    moons.push(m);
    let mut m = Moon::new("Hidden Chasm Passage", KingdomName::Cascade);
    m.add_prereq_moon(cascade2);
    moons.push(m);
    let m = Moon::new("Secret Path to Fossil Falls", KingdomName::Cascade);
    moons.push(m);
    let m = Moon::new("A Tourist in the Cascade Kingdom", KingdomName::Cascade);
    moons.push(m);
    let mut m = Moon::new("Rolling Rock by the Falls", KingdomName::Cascade);
    m.add_prereq_kingdom_count(KingdomName::Cascade, 2);
    moons.push(m);
    let mut m = Moon::new("Peach in the Cascade Kingdom", KingdomName::Cascade);
    m.add_prereq_kingdom(KingdomName::Mushroom);
    moons.push(m);
    let cascade22: usize = moons.len();
    let mut m = Moon::new("Cascade Kingdom Regular Cup", KingdomName::Cascade);
    m.add_prereq_kingdom(KingdomName::Mushroom);
    moons.push(m);
    let mut m = Moon::new("Caveman Cave-Fan", KingdomName::Cascade);
    m.add_prereq_kingdom(KingdomName::Mushroom);
    moons.push(m);
    let mut m = Moon::new("Shopping in Fossil Falls", KingdomName::Cascade);
    m.add_prereq_kingdom_count(KingdomName::Cascade, 2);
    moons.push(m);
    let mut m = Moon::new("Sphynx Traveling to the Waterfall", KingdomName::Cascade);
    m.add_prereq_kingdom(KingdomName::Mushroom);
    moons.push(m);
    let mut m = Moon::new("Bottom of the Waterfall Basin", KingdomName::Cascade);
    m.add_prereq_kingdom(KingdomName::Mushroom);
    moons.push(m);
    let mut m = Moon::new("Just a Hat, Skip, and a Jump", KingdomName::Cascade);
    m.add_prereq_kingdom(KingdomName::Mushroom);
    moons.push(m);
    let mut m = Moon::new("Treasure Under the Cliff", KingdomName::Cascade);
    m.add_prereq_kingdom(KingdomName::Mushroom);
    moons.push(m);
    let mut m = Moon::new("Next to the Stone Arch", KingdomName::Cascade);
    m.add_prereq_kingdom(KingdomName::Mushroom);
    moons.push(m);
    let mut m = Moon::new("Guarded by a Colossal Fossil", KingdomName::Cascade);
    m.add_prereq_kingdom(KingdomName::Mushroom);
    moons.push(m);
    let mut m = Moon::new("Under the Old Electrical Pole", KingdomName::Cascade);
    m.add_prereq_kingdom(KingdomName::Mushroom);
    moons.push(m);
    let mut m = Moon::new("Under the Ground", KingdomName::Cascade);
    m.add_prereq_kingdom(KingdomName::Mushroom);
    moons.push(m);
    let mut m = Moon::new("Inside the Busted Fossil", KingdomName::Cascade);
    m.add_prereq_kingdom(KingdomName::Mushroom);
    moons.push(m);
    let mut m = Moon::new("Caught Hopping at the Waterfall", KingdomName::Cascade);
    m.add_prereq_kingdom(KingdomName::Mushroom);
    moons.push(m);
    let mut m = Moon::new("Taking Notes: Hurry Upward", KingdomName::Cascade);
    m.add_prereq_kingdom(KingdomName::Mushroom);
    moons.push(m);
    let mut m = Moon::new("Cascade Kingdom Master Cup", KingdomName::Cascade);
    m.add_prereq_kingdom(KingdomName::Mushroom);
    moons.push(m);
    let mref = &mut moons[cascade22];
    mref.add_prereq_moon(cascade22);
    let mut m = Moon::new("Across the Mysterious Clouds", KingdomName::Cascade);
    m.add_prereq_kingdom(KingdomName::Mushroom);
    moons.push(m);
    let mut m = Moon::new("Atop a Wall Among the Clouds", KingdomName::Cascade);
    m.add_prereq_kingdom(KingdomName::Mushroom);
    moons.push(m);
    let mut m = Moon::new("Across the Gusty Bridges", KingdomName::Cascade);
    m.add_prereq_kingdom(KingdomName::Mushroom);
    moons.push(m);
    let mut m = Moon::new("Flying Far Away from Gusty Bridges", KingdomName::Cascade);
    m.add_prereq_kingdom(KingdomName::Mushroom);
    moons.push(m);
    let lake27: usize = moons.len();
    let mut m = Moon::new("Found with Lake Kingdom Art", KingdomName::Cascade);
    m.add_prereq_kingdom(KingdomName::Lake);
    m.add_prereq_kingdom_count(KingdomName::Cascade, 2);
    moons.push(m);
    lake27
}

fn sand_moons_a(moons: &mut Vec<Moon>) -> (r: (usize, usize, usize, usize))
    ensures
        final(moons)@.len() == old(moons)@.len() + 45,
        (forall|i: int| 0 <= i < old(moons)@.len() ==> (#[trigger] old(moons)@[i]).wf())
            ==> (forall|i: int|
            0 <= i < final(moons)@.len() ==> (#[trigger] final(moons)@[i]).wf()),
        forall|i: int|
            old(moons)@.len() <= i < final(moons)@.len() ==> (#[trigger] final(moons)@[i]).spec_kingdom() == KingdomName::Sand,
        forall|i: int|
            0 <= i < old(moons)@.len() ==> (#[trigger] final(moons)@[i]).spec_kingdom()
                == old(moons)@[i].spec_kingdom(),
        r.0 < final(moons)@.len(),
        r.1 < final(moons)@.len(),
        r.2 < final(moons)@.len(),
        r.3 < final(moons)@.len(),
{
    let sand1: usize = moons.len();
    let m = Moon::new("Atop the Highest Tower", KingdomName::Sand);
    moons.push(m);
    let sand2: usize = moons.len();
    let mut m = Moon::new("Moon Shards in the Sand", KingdomName::Sand);
    m.add_prereq_moon(sand1);
    moons.push(m);
    let sand3: usize = moons.len();
    let mut m = Moon::new_multi("Showdown on the Inverted Pyramid", KingdomName::Sand);
    m.add_prereq_moon(sand2);
    moons.push(m);
    let sand4: usize = moons.len();
    let mut m = Moon::new_multi("The Hole in the Desert", KingdomName::Sand);
    m.add_prereq_moon(sand3);
    moons.push(m);
    let m = Moon::new("Overlooking the Desert Town", KingdomName::Sand);
    moons.push(m);
    let m = Moon::new("Alcove in the Ruins", KingdomName::Sand);
    moons.push(m);
    let m = Moon::new("On the Leaning Pillar", KingdomName::Sand);
    moons.push(m);
    let m = Moon::new("Hidden Room in the Flowing Sands", KingdomName::Sand);
    moons.push(m);
    let m = Moon::new("Secret of the Mural", KingdomName::Sand);
    moons.push(m);
    let mut m = Moon::new("Secret of the Inverted Mural", KingdomName::Sand);
    m.add_prereq_moon(sand2);
    moons.push(m);
    let m = Moon::new("On Top of the Stone Archway", KingdomName::Sand);
    moons.push(m);
    let m = Moon::new("From a Crate in the Ruins", KingdomName::Sand);
    moons.push(m);
    let m = Moon::new("On the Lone Pillar", KingdomName::Sand);
    moons.push(m);
    let mut m = Moon::new("On the Statue's Tail", KingdomName::Sand);
    m.add_prereq_moon(sand2);
    moons.push(m);
    let mut m = Moon::new("Hang Your Hat on the Fountain", KingdomName::Sand);
    m.add_prereq_moon(sand4);
    moons.push(m);
    let m = Moon::new("Where the Birds Gather", KingdomName::Sand);
    moons.push(m);
    let m = Moon::new("Top of a Dune", KingdomName::Sand);
    moons.push(m);
    let m = Moon::new("Lost in the Luggage", KingdomName::Sand);
    moons.push(m);
    let mut m = Moon::new("Bullet Bill Breakthrough", KingdomName::Sand);
    m.add_prereq_moon(sand4);
    moons.push(m);
    let m = Moon::new("Inside a Block is a Hard Place", KingdomName::Sand);
    moons.push(m);
    let m = Moon::new("Bird Traveling the Desert", KingdomName::Sand);
    moons.push(m);
    let mut m = Moon::new("Bird Traveling the Wastes", KingdomName::Sand);
    m.add_prereq_moon(sand4);
    moons.push(m);
    let mut m = Moon::new("The Lurker Under the Stone", KingdomName::Sand);
    m.add_prereq_moon(sand4);
    moons.push(m);
    let m = Moon::new("The Treasure of Jaxi Ruins", KingdomName::Sand);
    moons.push(m);
    let m = Moon::new("Desert Gardening: Plaza Seed", KingdomName::Sand);
    moons.push(m);
    let m = Moon::new("Desert Gardening: Ruins Seed", KingdomName::Sand);
    moons.push(m);
    let m = Moon::new("Desert Gardening: Seed on the Cliff", KingdomName::Sand);
    moons.push(m);
    let mut m = Moon::new("Sand Kingdom Timer Challenge 1", KingdomName::Sand);
    m.add_prereq_moon(sand4);
    moons.push(m);
    let mut m = Moon::new("Sand Kingdom Timer Challenge 2", KingdomName::Sand);
    m.add_prereq_moon(sand4);
    moons.push(m);
    let mut m = Moon::new("Sand Kingdom Timer Challenge 3", KingdomName::Sand);
    m.add_prereq_moon(sand4);
    moons.push(m);
    let mut m = Moon::new("Found in the Sand! Good Dog!", KingdomName::Sand);
    m.add_prereq_moon(sand4);
    moons.push(m);
    let m = Moon::new("Taking Notes: Jump on the Palm", KingdomName::Sand);
    moons.push(m);
    let m = Moon::new("Herding Sheep in the Dunes", KingdomName::Sand);
    moons.push(m);
    let mut m = Moon::new("Fishing in the Oasis", KingdomName::Sand);
    m.add_prereq_moon(sand4);
    moons.push(m);
    let mut m = Moon::new("Love in the Heart of the Desert", KingdomName::Sand);
    m.add_prereq_moon(sand4);
    moons.push(m);
    let m = Moon::new("Among the Five Cactuses", KingdomName::Sand);
    moons.push(m);
    let mut m = Moon::new("You're Quite a Catch, Captain Toad!", KingdomName::Sand);
    m.add_prereq_moon(sand4);
    moons.push(m);
    let mut m = Moon::new("Jaxi Reunion!", KingdomName::Sand);
    m.add_prereq_moon(sand4);
    moons.push(m);
    let mut m = Moon::new("Welcome Back, Jaxi!", KingdomName::Sand);
    m.add_prereq_moon(sand4);
    moons.push(m);
    let m = Moon::new("Wandering Cactus", KingdomName::Sand);
    moons.push(m);
    let m = Moon::new("Sand Quiz: Wonderful!", KingdomName::Sand);
    moons.push(m);
    let m = Moon::new("Shopping in Tostarena", KingdomName::Sand);
    moons.push(m);
    let m = Moon::new("Employees Only", KingdomName::Sand);
    moons.push(m);
    let m = Moon::new("Sand Kingdom Slots", KingdomName::Sand);
    moons.push(m);
    let sand45: usize = moons.len();
    let m = Moon::new("Walking the Desert", KingdomName::Sand);
    moons.push(m);
    (sand2, sand3, sand4, sand45)
}

fn sand_moons_b(moons: &mut Vec<Moon>, sand2: usize, sand3: usize, sand4: usize, sand45: usize)
    requires
        sand2 < old(moons)@.len(),
        sand3 < old(moons)@.len(),
        sand4 < old(moons)@.len(),
        sand45 < old(moons)@.len(),
    ensures
        final(moons)@.len() == old(moons)@.len() + 44,
        (forall|i: int| 0 <= i < old(moons)@.len() ==> (#[trigger] old(moons)@[i]).wf())
            ==> (forall|i: int|
            0 <= i < final(moons)@.len() ==> (#[trigger] final(moons)@[i]).wf()),
        forall|i: int|
            old(moons)@.len() <= i < final(moons)@.len() ==> (#[trigger] final(moons)@[i]).spec_kingdom() == KingdomName::Sand,
        forall|i: int|
            0 <= i < old(moons)@.len() ==> (#[trigger] final(moons)@[i]).spec_kingdom()
                == old(moons)@[i].spec_kingdom(),
{
    let mut m = Moon::new("Hidden Room in the Inverted Pyramid", KingdomName::Sand);
    m.add_prereq_moon(sand2);
    moons.push(m);
    let mut m = Moon::new("Underground Treasure Chest", KingdomName::Sand);
    m.add_prereq_moon(sand3);
    moons.push(m);
    let mut m = Moon::new("Goomba Tower Assembly", KingdomName::Sand);
    m.add_prereq_moon(sand3);
    moons.push(m);
    let mut m = Moon::new("Under the Mummy's Curse", KingdomName::Sand);
    m.add_prereq_moon(sand4);
    moons.push(m);
    let m = Moon::new("Ice Cave Treasure", KingdomName::Sand);
    moons.push(m);
    let m = Moon::new("Sphynx's Treasure Vault", KingdomName::Sand);
    moons.push(m);
    let m = Moon::new("A Rumble from the Sandy Floor", KingdomName::Sand);
    moons.push(m);
    let m = Moon::new("Dancing with New Friends", KingdomName::Sand);
    moons.push(m);
    let m = Moon::new("The Invisible Maze", KingdomName::Sand);
    moons.push(m);
    let m = Moon::new("Skull Sign in the Transparent Maze", KingdomName::Sand);
    moons.push(m);
    let m = Moon::new("The Bullet Bill Maze: Break Through!", KingdomName::Sand);
    moons.push(m);
    let m = Moon::new("The Bullet Bill Maze: Side Path", KingdomName::Sand);
    moons.push(m);
    let m = Moon::new("Jaxi Driver", KingdomName::Sand);
    moons.push(m);
    let m = Moon::new("Jaxi Stunt Driving", KingdomName::Sand);
    moons.push(m);
    let mut m = Moon::new("Strange Neighborhood", KingdomName::Sand);
    m.add_prereq_moon(sand4);
    moons.push(m);
    let mut m = Moon::new("Above a Strange Neighborhood", KingdomName::Sand);
    m.add_prereq_moon(sand4);
    moons.push(m);
    let mut m = Moon::new("Secret Path to Tostarena!", KingdomName::Sand);
    m.add_prereq_kingdom(KingdomName::Lake);
    moons.push(m);
    let mut m = Moon::new("Jammin' in the Sand Kingdom", KingdomName::Sand);
    m.add_prereq_kingdom(KingdomName::Mushroom);
    moons.push(m);
    let mut m = Moon::new("Hat-and-Seek: In the Sand", KingdomName::Sand);
    m.add_prereq_kingdom(KingdomName::Mushroom);
    moons.push(m);
    let sand66: usize = moons.len();
    let mut m = Moon::new("Sand Kingdom Regular Cup", KingdomName::Sand);
    m.add_prereq_kingdom(KingdomName::Mushroom);
    moons.push(m);
    let mut m = Moon::new("Binding Band Returned", KingdomName::Sand);
    m.add_prereq_kingdom(KingdomName::Mushroom);
    moons.push(m);
    let m = Moon::new("Round-the-World Tourist", KingdomName::Sand);
    moons.push(m);
    let mut m = Moon::new("Peach in the Sand Kingdom", KingdomName::Sand);
    m.add_prereq_kingdom(KingdomName::Mushroom);
    moons.push(m);
    let mut m = Moon::new("Mighty Leap from the Palm Tree!", KingdomName::Sand);
    m.add_prereq_kingdom(KingdomName::Mushroom);
    moons.push(m);
    let mut m = Moon::new("On the North Pillar", KingdomName::Sand);
    m.add_prereq_kingdom(KingdomName::Mushroom);
    moons.push(m);
    let mut m = Moon::new("Into the Flowing Sands", KingdomName::Sand);
    m.add_prereq_kingdom(KingdomName::Mushroom);
    moons.push(m);
    let mut m = Moon::new("In the Skies Above the Canyon", KingdomName::Sand);
    m.add_prereq_kingdom(KingdomName::Mushroom);
    moons.push(m);
    let mut m = Moon::new("Island in the Poison Swamp", KingdomName::Sand);
    m.add_prereq_kingdom(KingdomName::Mushroom);
    moons.push(m);
    let mut m = Moon::new("An Invisible Gleam", KingdomName::Sand);
    m.add_prereq_kingdom(KingdomName::Mushroom);
    moons.push(m);
    let mut m = Moon::new("On the Eastern Pillar", KingdomName::Sand);
    m.add_prereq_kingdom(KingdomName::Mushroom);
    moons.push(m);
    let mut m = Moon::new("Caught Hopping in the Desert!", KingdomName::Sand);
    m.add_prereq_kingdom(KingdomName::Mushroom);
    moons.push(m);
    let mut m = Moon::new("Poster Cleanup", KingdomName::Sand);
    m.add_prereq_kingdom(KingdomName::Mushroom);
    moons.push(m);
    let mut m = Moon::new("Taking Notes: Running Down", KingdomName::Sand);
    m.add_prereq_kingdom(KingdomName::Mushroom);
    moons.push(m);
    let mut m = Moon::new("Taking Notes: In the Wall Painting", KingdomName::Sand);
    m.add_prereq_kingdom(KingdomName::Mushroom);
    moons.push(m);
    let mut m = Moon::new("Love at the Edge of the Desert", KingdomName::Sand);
    m.add_prereq_kingdom(KingdomName::Mushroom);
    moons.push(m);
    let mut m = Moon::new("More Walking in the Desert!", KingdomName::Sand);
    m.add_prereq_kingdom(KingdomName::Mushroom);
    m.add_prereq_moon(sand45);
    moons.push(m);
    let mut m = Moon::new("Sand Kingdom Master Cup", KingdomName::Sand);
    m.add_prereq_kingdom(KingdomName::Mushroom);
    m.add_prereq_moon(sand66);
    moons.push(m);
    let mut m = Moon::new("Where the Transparent Platforms End", KingdomName::Sand);
    m.add_prereq_kingdom(KingdomName::Mushroom);
    moons.push(m);
    let mut m = Moon::new("Jump Onto the Transparent Lift", KingdomName::Sand);
    m.add_prereq_kingdom(KingdomName::Mushroom);
    moons.push(m);
    let mut m = Moon::new("Colossal Ruins: Dash! Jump!", KingdomName::Sand);
    m.add_prereq_kingdom(KingdomName::Mushroom);
    moons.push(m);
    let mut m = Moon::new("Sinking Colossal Ruins: Hurry!", KingdomName::Sand);
    m.add_prereq_kingdom(KingdomName::Mushroom);
    moons.push(m);
    let mut m = Moon::new("Through the Freezing Waterway", KingdomName::Sand);
    m.add_prereq_kingdom(KingdomName::Mushroom);
    moons.push(m);
    let mut m = Moon::new("Freezing Waterway: Hidden Room", KingdomName::Sand);
    m.add_prereq_kingdom(KingdomName::Mushroom);
    moons.push(m);
    let mut m = Moon::new("Found with Wooded Kingdom Art", KingdomName::Sand);
    m.add_prereq_kingdom(KingdomName::Wooded);
    m.add_prereq_kingdom_count(KingdomName::Sand, 2);
    moons.push(m);
}

fn lake_moons(moons: &mut Vec<Moon>, lake27: usize)
    requires
        lake27 < old(moons)@.len(),
    ensures
        final(moons)@.len() == old(moons)@.len() + 40,
        (forall|i: int| 0 <= i < old(moons)@.len() ==> (#[trigger] old(moons)@[i]).wf())
            ==> (forall|i: int|
            0 <= i < final(moons)@.len() ==> (#[trigger] final(moons)@[i]).wf()),
        forall|i: int|
            old(moons)@.len() <= i < final(moons)@.len() ==> (#[trigger] final(moons)@[i]).spec_kingdom() == KingdomName::Lake,
        forall|i: int|
            0 <= i < old(moons)@.len() ==> (#[trigger] final(moons)@[i]).spec_kingdom()
                == old(moons)@[i].spec_kingdom(),
{
    let lake1: usize = moons.len();
    let m = Moon::new_multi("Broodals Over the Lake", KingdomName::Lake);
    moons.push(m);
    let m = Moon::new("Dorrie-Back Rider", KingdomName::Lake);
    moons.push(m);
    let m = Moon::new("Cheep Cheep Crossing", KingdomName::Lake);
    moons.push(m);
    let m = Moon::new("End of the Hidden Passage", KingdomName::Lake);
    moons.push(m);
    let m = Moon::new("What's in the Box?", KingdomName::Lake);
    moons.push(m);
    let m = Moon::new("On the Lakeshore", KingdomName::Lake);
    moons.push(m);
    let m = Moon::new("From the Broken Pillar", KingdomName::Lake);
    moons.push(m);
    let m = Moon::new("Treasure in the Spiky Waterway", KingdomName::Lake);
    moons.push(m);
    let mut m = Moon::new("Lake Gardening: Spiky Passage Seed", KingdomName::Lake);
    m.add_prereq_moon(lake1);
    moons.push(m);
    let mut m = Moon::new("Lake Kingdom Timer Challenge 1", KingdomName::Lake);
    m.add_prereq_moon(lake1);
    moons.push(m);
    let mut m = Moon::new("Lake Kingdom Timer Challenge 2", KingdomName::Lake);
    m.add_prereq_moon(lake1);
    moons.push(m);
    let m = Moon::new("Moon Shards in the Lake", KingdomName::Lake);
    moons.push(m);
    let m = Moon::new("Taking Notes: Dive and Swim", KingdomName::Lake);
    moons.push(m);
    let m = Moon::new("Taking Notes: In the Cliffside", KingdomName::Lake);
    moons.push(m);
    let mut m = Moon::new("Lake Fishing", KingdomName::Lake);
    m.add_prereq_moon(lake1);
    moons.push(m);
    let mut m = Moon::new("I Met a Lake Cheep Cheep!", KingdomName::Lake);
    m.add_prereq_moon(lake1);
    moons.push(m);
    let m = Moon::new("Our Secret Little Room", KingdomName::Lake);
    moons.push(m);
    let m = Moon::new("Let's Go Swimming, Captain Toad!", KingdomName::Lake);
    moons.push(m);
    let m = Moon::new("Shopping in Lake Lamode", KingdomName::Lake);
    moons.push(m);
    let mut m = Moon::new("A Successful Repair Job", KingdomName::Lake);
    m.add_prereq_moon(lake1);
    moons.push(m);
    let m = Moon::new("I Feel Underdressed", KingdomName::Lake);
    moons.push(m);
    let m = Moon::new("Unzip the Chasm", KingdomName::Lake);
    moons.push(m);
    let m = Moon::new("Super-Secret Zipper", KingdomName::Lake);
    moons.push(m);
    let m = Moon::new("Jump, Grab, Cling, and Climb", KingdomName::Lake);
    moons.push(m);
    let m = Moon::new("Secret Path to Lake Lamode!", KingdomName::Lake);
    moons.push(m);
    let mref = &mut moons[lake27];
    mref.add_prereq_moon(lake1);
    let mut m = Moon::new("Taxi Flying Through Lake Lamode", KingdomName::Lake);
    m.add_prereq_kingdom(KingdomName::Mushroom);
    moons.push(m);
    let mut m = Moon::new("That Trendy \"Pirate\" Look", KingdomName::Lake);
    m.add_prereq_kingdom(KingdomName::Mushroom);
    moons.push(m);
    let mut m = Moon::new("Space Is \"In\" Right Now", KingdomName::Lake);
    m.add_prereq_kingdom(KingdomName::Mushroom);
    moons.push(m);
    let mut m = Moon::new("That \"Old West\" Style", KingdomName::Lake);
    m.add_prereq_kingdom(KingdomName::Mushroom);
    moons.push(m);
    let lake32: usize = moons.len();
    let mut m = Moon::new("Lake Kingdom Regular Cup", KingdomName::Lake);
    m.add_prereq_kingdom(KingdomName::Mushroom);
    moons.push(m);
    let mut m = Moon::new("Peach in the Lake Kingdom", KingdomName::Lake);
    m.add_prereq_kingdom(KingdomName::Mushroom);
    moons.push(m);
    let mut m = Moon::new("Behind the Floodgate", KingdomName::Lake);
    m.add_prereq_kingdom(KingdomName::Mushroom);
    moons.push(m);
    let mut m = Moon::new("High-Flying Leap", KingdomName::Lake);
    m.add_prereq_kingdom(KingdomName::Mushroom);
    moons.push(m);
    let mut m = Moon::new("Deep, Deep Down", KingdomName::Lake);
    m.add_prereq_kingdom(KingdomName::Mushroom);
    moons.push(m);
    let mut m = Moon::new("Rooftop of the Water Plaza", KingdomName::Lake);
    m.add_prereq_kingdom(KingdomName::Mushroom);
    moons.push(m);
    let mut m = Moon::new("Bird Traveling Over the Lake", KingdomName::Lake);
    m.add_prereq_kingdom(KingdomName::Mushroom);
    moons.push(m);
    let mut m = Moon::new("Love by the Lake", KingdomName::Lake);
    m.add_prereq_kingdom(KingdomName::Mushroom);
    moons.push(m);
    let mut m = Moon::new("Lake Kingdom Master Cup", KingdomName::Lake);
    m.add_prereq_kingdom(KingdomName::Mushroom);
    m.add_prereq_moon(lake32);
    moons.push(m);
    let mut m = Moon::new("Waves of Poison: Hoppin' Over", KingdomName::Lake);
    m.add_prereq_kingdom(KingdomName::Mushroom);
    moons.push(m);
    let mut m = Moon::new("Waves of Poison: Hop to It!", KingdomName::Lake);
    m.add_prereq_kingdom(KingdomName::Mushroom);
    moons.push(m);
}

fn wooded_moons_a(moons: &mut Vec<Moon>) -> (r: (usize, usize))
    ensures
        final(moons)@.len() == old(moons)@.len() + 45,
        (forall|i: int| 0 <= i < old(moons)@.len() ==> (#[trigger] old(moons)@[i]).wf())
            ==> (forall|i: int|
            0 <= i < final(moons)@.len() ==> (#[trigger] final(moons)@[i]).wf()),
        forall|i: int|
            old(moons)@.len() <= i < final(moons)@.len() ==> (#[trigger] final(moons)@[i]).spec_kingdom() == KingdomName::Wooded,
        forall|i: int|
            0 <= i < old(moons)@.len() ==> (#[trigger] final(moons)@[i]).spec_kingdom()
                == old(moons)@[i].spec_kingdom(),
        r.0 < final(moons)@.len(),
        r.1 < final(moons)@.len(),
{
    let wooded1: usize = moons.len();
    let m = Moon::new("Road to Sky Garden", KingdomName::Wooded);
    moons.push(m);
    let wooded2: usize = moons.len();
    let mut m = Moon::new_multi("Flower Thieves of Sky Garden", KingdomName::Wooded);
    m.add_prereq_moon(wooded1);
    moons.push(m);
    let wooded3: usize = moons.len();
    let mut m = Moon::new("Path to the Secret Flower Field", KingdomName::Wooded);
    m.add_prereq_moon(wooded2);
    moons.push(m);
    let wooded4: usize = moons.len();
    let mut m = Moon::new_multi("Defend the Secret Flower Field!", KingdomName::Wooded);
    m.add_prereq_moon(wooded3);
    moons.push(m);
    let mut m = Moon::new("Behind the Rock Wall", KingdomName::Wooded);
    m.add_prereq_moon(wooded2);
    moons.push(m);
    let mut m = Moon::new("Back Way Up the Mountain", KingdomName::Wooded);
    m.add_prereq_moon(wooded2);
    moons.push(m);
    let m = Moon::new("Rolling Rock in the Woods", KingdomName::Wooded);
    moons.push(m);
    let m = Moon::new("Caught Hopping in the Forest!", KingdomName::Wooded);
    moons.push(m);
    let mut m = Moon::new("Thanks for the Charge!", KingdomName::Wooded);
    m.add_prereq_moon(wooded2);
    moons.push(m);
    let m = Moon::new("Atop the Tall Tree", KingdomName::Wooded);
    moons.push(m);
    let m = Moon::new("Tucked Way Inside the Tunnel", KingdomName::Wooded);
    moons.push(m);
    let mut m = Moon::new("Over the Cliff's Edge", KingdomName::Wooded);
    m.add_prereq_moon(wooded2);
    moons.push(m);
    let m = Moon::new("The Nut Round the Corner", KingdomName::Wooded);
    moons.push(m);
    let m = Moon::new("Climb the Cliff to Get the Nut", KingdomName::Wooded);
    moons.push(m);
    let m = Moon::new("The Nut in the Red Maze", KingdomName::Wooded);
    moons.push(m);
    let m = Moon::new("The Nut at the Dead End", KingdomName::Wooded);
    moons.push(m);
    let mut m = Moon::new("Cracked Nut on a Crumbling Tower", KingdomName::Wooded);
    m.add_prereq_moon(wooded1);
    moons.push(m);
    let mut m = Moon::new("The Nut that Grew on the Tall Fence", KingdomName::Wooded);
    m.add_prereq_moon(wooded2);
    moons.push(m);
    let m = Moon::new("Fire in the Cave", KingdomName::Wooded);
    moons.push(m);
    let mut m = Moon::new("Hey Out There, Captain Toad!", KingdomName::Wooded);
    m.add_prereq_moon(wooded4);
    moons.push(m);
    let mut m = Moon::new("Love in the Forest Ruins", KingdomName::Wooded);
    m.add_prereq_moon(wooded2);
    moons.push(m);
    let mut m = Moon::new("Inside a Rock in the Forest", KingdomName::Wooded);
    m.add_prereq_moon(wooded4);
    moons.push(m);
    let m = Moon::new("Shopping in Steam Gardens", KingdomName::Wooded);
    moons.push(m);
    let mut m = Moon::new("Nut Planted in the Tower", KingdomName::Wooded);
    m.add_prereq_moon(wooded1);
    moons.push(m);
    let mut m = Moon::new("Stretching Your Legs", KingdomName::Wooded);
    m.add_prereq_moon(wooded1);
    moons.push(m);
    let mut m = Moon::new("Spinning-Platforms Treasure", KingdomName::Wooded);
    m.add_prereq_moon(wooded2);
    moons.push(m);
    let mut m = Moon::new("Make the Secret Flower Field Bloom", KingdomName::Wooded);
    m.add_prereq_moon(wooded4);
    moons.push(m);
    let m = Moon::new("Rolling Rock in the Deep Woods", KingdomName::Wooded);
    moons.push(m);
    let m = Moon::new("Glowing in the Deep Woods", KingdomName::Wooded);
    moons.push(m);
    let m = Moon::new("Past the Peculiar Pipes", KingdomName::Wooded);
    moons.push(m);
    let m = Moon::new("By the Babbling Brook in Deep Woods", KingdomName::Wooded);
    moons.push(m);
    let m = Moon::new("The Hard Rock in Deep Woods", KingdomName::Wooded);
    moons.push(m);
    let m = Moon::new("A Treasure Made from Coins", KingdomName::Wooded);
    moons.push(m);
    let m = Moon::new("Beneath the Roots of the Moving Tree", KingdomName::Wooded);
    moons.push(m);
    let m = Moon::new("Deep Woods Treasure Trap", KingdomName::Wooded);
    moons.push(m);
    let m = Moon::new("Exploring for Treasure", KingdomName::Wooded);
    moons.push(m);
    let mut m = Moon::new("Wooded Kingdom Timer Challenge 1", KingdomName::Wooded);
    m.add_prereq_moon(wooded4);
    moons.push(m);
    let mut m = Moon::new("Wooded Kingdom Timer Challenge 2", KingdomName::Wooded);
    m.add_prereq_moon(wooded4);
    moons.push(m);
    let m = Moon::new("Flooding Pipeway", KingdomName::Wooded);
    moons.push(m);
    let m = Moon::new("Flooding Pipeway Ceiling Secret", KingdomName::Wooded);
    moons.push(m);
    let mut m = Moon::new("Wandering in the Fog", KingdomName::Wooded);
    m.add_prereq_moon(wooded2);
    moons.push(m);
    let mut m = Moon::new("Nut Hidden in the Fog", KingdomName::Wooded);
    m.add_prereq_moon(wooded2);
    moons.push(m);
    let mut m = Moon::new("Flower Road Run", KingdomName::Wooded);
    m.add_prereq_moon(wooded2);
    moons.push(m);
    let mut m = Moon::new("Flower Road Reach", KingdomName::Wooded);
    m.add_prereq_moon(wooded2);
    moons.push(m);
    let mut m = Moon::new("Elevator Escalation", KingdomName::Wooded);
    m.add_prereq_moon(wooded2);
    moons.push(m);
    (wooded2, wooded4)
}

fn wooded_moons_b(moons: &mut Vec<Moon>, wooded2: usize, wooded4: usize)
    requires
        wooded2 < old(moons)@.len(),
        wooded4 < old(moons)@.len(),
    ensures
        final(moons)@.len() == old(moons)@.len() + 30,
        (forall|i: int| 0 <= i < old(moons)@.len() ==> (#[trigger] old(moons)@[i]).wf())
            ==> (forall|i: int|
            0 <= i < final(moons)@.len() ==> (#[trigger] final(moons)@[i]).wf()),
        forall|i: int|
            old(moons)@.len() <= i < final(moons)@.len() ==> (#[trigger] final(moons)@[i]).spec_kingdom() == KingdomName::Wooded,
        forall|i: int|
            0 <= i < old(moons)@.len() ==> (#[trigger] final(moons)@[i]).spec_kingdom()
                == old(moons)@[i].spec_kingdom(),
{
    let mut m = Moon::new("Elevator Blind Spot", KingdomName::Wooded);
    m.add_prereq_moon(wooded2);
    moons.push(m);
    let mut m = Moon::new("Walking on Clouds", KingdomName::Wooded);
    m.add_prereq_moon(wooded4);
    moons.push(m);
    let mut m = Moon::new("Above the Clouds", KingdomName::Wooded);
    m.add_prereq_moon(wooded4);
    moons.push(m);
    let m = Moon::new("Secret Path to Steam Gardens!", KingdomName::Wooded);
    moons.push(m);
    let mut m = Moon::new("Swing Around Secret Flower Field", KingdomName::Wooded);
    m.add_prereq_kingdom(KingdomName::Mushroom);
    moons.push(m);
    let mut m = Moon::new("Jammin' in the Wooded Kingdom", KingdomName::Wooded);
    m.add_prereq_kingdom(KingdomName::Mushroom);
    moons.push(m);
    let wooded53: usize = moons.len();
    let mut m = Moon::new("Wooded Kingdom Regular Cup", KingdomName::Wooded);
    m.add_prereq_kingdom(KingdomName::Mushroom);
    moons.push(m);
    let mut m = Moon::new("Peach in the Wooded Kingdom", KingdomName::Wooded);
    m.add_prereq_kingdom(KingdomName::Mushroom);
    moons.push(m);
    let mut m = Moon::new("High Up in the Cave", KingdomName::Wooded);
    m.add_prereq_kingdom(KingdomName::Mushroom);
    moons.push(m);
    let mut m = Moon::new("Lost in the Tall Trees", KingdomName::Wooded);
    m.add_prereq_kingdom(KingdomName::Mushroom);
    moons.push(m);
    let mut m = Moon::new("Looking Down on the Goombas", KingdomName::Wooded);
    m.add_prereq_kingdom(KingdomName::Mushroom);
    moons.push(m);
    let mut m = Moon::new("High Up on a Rock Wall", KingdomName::Wooded);
    m.add_prereq_kingdom(KingdomName::Mushroom);
    moons.push(m);
    let mut m = Moon::new("The Nut in the Robot Storeroom", KingdomName::Wooded);
    m.add_prereq_kingdom(KingdomName::Mushroom);
    moons.push(m);
    let mut m = Moon::new("Above the Iron Mountain Path", KingdomName::Wooded);
    m.add_prereq_kingdom(KingdomName::Mushroom);
    moons.push(m);
    let mut m = Moon::new("The Nut Under the Observation Deck", KingdomName::Wooded);
    m.add_prereq_kingdom(KingdomName::Mushroom);
    moons.push(m);
    let mut m = Moon::new("Bird Traveling the Forest", KingdomName::Wooded);
    m.add_prereq_kingdom(KingdomName::Mushroom);
    moons.push(m);
    let mut m = Moon::new("Invader in the Sky Garden", KingdomName::Wooded);
    m.add_prereq_kingdom(KingdomName::Mushroom);
    moons.push(m);
    let mut m = Moon::new("Hot, Hot, Hot from the Campfire", KingdomName::Wooded);
    m.add_prereq_kingdom(KingdomName::Mushroom);
    moons.push(m);
    let mut m = Moon::new("Wooded Kingdom Timer Challenge 3", KingdomName::Wooded);
    m.add_prereq_kingdom(KingdomName::Mushroom);
    moons.push(m);
    let mut m = Moon::new("Moon Shards in the Forest", KingdomName::Wooded);
    m.add_prereq_kingdom(KingdomName::Mushroom);
    moons.push(m);
    let mut m = Moon::new("Taking Notes: On Top of the Wall", KingdomName::Wooded);
    m.add_prereq_kingdom(KingdomName::Mushroom);
    moons.push(m);
    let mut m = Moon::new("Taking Notes: Stretching", KingdomName::Wooded);
    m.add_prereq_kingdom(KingdomName::Mushroom);
    moons.push(m);
    let mut m = Moon::new("Wooded Kingdom Master Cup", KingdomName::Wooded);
    m.add_prereq_kingdom(KingdomName::Mushroom);
    m.add_prereq_moon(wooded53);
    moons.push(m);
    let mut m = Moon::new("I Met an Uproot!", KingdomName::Wooded);
    m.add_prereq_kingdom(KingdomName::Mushroom);
    moons.push(m);
    let mut m = Moon::new("Invisible Road: Danger!", KingdomName::Wooded);
    m.add_prereq_kingdom(KingdomName::Mushroom);
    moons.push(m);
    let mut m = Moon::new("Invisible Road: Hidden Room", KingdomName::Wooded);
    m.add_prereq_kingdom(KingdomName::Mushroom);
    moons.push(m);
    let mut m = Moon::new("Herding Sheep Above the Forest Fog", KingdomName::Wooded);
    m.add_prereq_kingdom(KingdomName::Mushroom);
    moons.push(m);
    let mut m = Moon::new("Herding Sheep on the Iron Bridge", KingdomName::Wooded);
    m.add_prereq_kingdom(KingdomName::Mushroom);
    moons.push(m);
    let mut m = Moon::new("Down and Back Breakdown Road", KingdomName::Wooded);
    m.add_prereq_kingdom(KingdomName::Mushroom);
    moons.push(m);
    let mut m = Moon::new("Below Breakdown Road", KingdomName::Wooded);
    m.add_prereq_kingdom(KingdomName::Mushroom);
    moons.push(m);
}

fn cloud_moons(moons: &mut Vec<Moon>)
    ensures
        final(moons)@.len() == old(moons)@.len() + 9,
        (forall|i: int| 0 <= i < old(moons)@.len() ==> (#[trigger] old(moons)@[i]).wf())
            ==> (forall|i: int|
            0 <= i < final(moons)@.len() ==> (#[trigger] final(moons)@[i]).wf()),
        forall|i: int|
            old(moons)@.len() <= i < final(moons)@.len() ==> (#[trigger] final(moons)@[i]).spec_kingdom() == KingdomName::Cloud,
        forall|i: int|
            0 <= i < old(moons)@.len() ==> (#[trigger] final(moons)@[i]).spec_kingdom()
                == old(moons)@[i].spec_kingdom(),
{
    let cloud1: usize = moons.len();
    let mut m = Moon::new("Picture Match: Basically a Goomba", KingdomName::Cloud);
    m.add_prereq_kingdom(KingdomName::Lost);
    m.add_prereq_kingdom_count(KingdomName::Cloud, 2);
    moons.push(m);
    let mut m = Moon::new("Peach in the Cloud Kingdom", KingdomName::Cloud);
    m.add_prereq_kingdom(KingdomName::Mushroom);
    moons.push(m);
    let mut m = Moon::new("Digging in the...Cloud?", KingdomName::Cloud);
    m.add_prereq_kingdom(KingdomName::Mushroom);
    moons.push(m);
    let mut m = Moon::new("High, High Above the Clouds", KingdomName::Cloud);
    m.add_prereq_kingdom(KingdomName::Mushroom);
    moons.push(m);
    let mut m = Moon::new("Crossing the Cloud Sea", KingdomName::Cloud);
    m.add_prereq_kingdom(KingdomName::Mushroom);
    moons.push(m);
    let mut m = Moon::new("Taking Notes: Up and Down", KingdomName::Cloud);
    m.add_prereq_kingdom(KingdomName::Mushroom);
    moons.push(m);
    let mut m = Moon::new("Picture Match: A Stellar Goomba", KingdomName::Cloud);
    m.add_prereq_kingdom(KingdomName::Mushroom);
    m.add_prereq_moon(cloud1);
    moons.push(m);
    let mut m = Moon::new("King of the Cube!", KingdomName::Cloud);
    m.add_prereq_kingdom(KingdomName::Mushroom);
    moons.push(m);
    let mut m = Moon::new("The Sixth Face", KingdomName::Cloud);
    m.add_prereq_kingdom(KingdomName::Mushroom);
    moons.push(m);
}

fn bowser_moons(moons: &mut Vec<Moon>)
    ensures
        final(moons)@.len() == old(moons)@.len() + 1,
        (forall|i: int| 0 <= i < old(moons)@.len() ==> (#[trigger] old(moons)@[i]).wf())
            ==> (forall|i: int|
            0 <= i < final(moons)@.len() ==> (#[trigger] final(moons)@[i]).wf()),
        forall|i: int|
            old(moons)@.len() <= i < final(moons)@.len() ==> (#[trigger] final(moons)@[i]).spec_kingdom() == KingdomName::Bowser,
        forall|i: int|
            0 <= i < old(moons)@.len() ==> (#[trigger] final(moons)@[i]).spec_kingdom()
                == old(moons)@[i].spec_kingdom(),
{
    let mut m = Moon::new("Found with Sand Kingdom Art", KingdomName::Bowser);
    m.add_prereq_kingdom(KingdomName::Mushroom);
    m.add_prereq_kingdom_count(KingdomName::Sand, 2);
    moons.push(m);
}

fn moon_k_moons(moons: &mut Vec<Moon>)
    ensures
        final(moons)@.len() == old(moons)@.len() + 1,
        (forall|i: int| 0 <= i < old(moons)@.len() ==> (#[trigger] old(moons)@[i]).wf())
            ==> (forall|i: int|
            0 <= i < final(moons)@.len() ==> (#[trigger] final(moons)@[i]).wf()),
        forall|i: int|
            old(moons)@.len() <= i < final(moons)@.len() ==> (#[trigger] final(moons)@[i]).spec_kingdom() == KingdomName::Moon,
        forall|i: int|
            0 <= i < old(moons)@.len() ==> (#[trigger] final(moons)@[i]).spec_kingdom()
                == old(moons)@[i].spec_kingdom(),
{
    let mut m = Moon::new("Found with Cap Kingdom Art", KingdomName::Moon);
    m.add_prereq_kingdom(KingdomName::Mushroom);
    m.add_prereq_kingdom_count(KingdomName::Cap, 2);
    moons.push(m);
}

impl Moons {
    /// The fixed moon catalog of the main game.
    pub fn new() -> (m: Moons)
        ensures
            m.wf(),
            m.spec_len() == 286,
            // ids start out as the identity permutation
            m.spec_ids() == Seq::new(m.spec_moons().len(), |i: int| i as MoonID),
            // one window per kingdom, in catalog order; kingdoms without
            // authored moons have empty windows
            m.spec_offset() == seq![
                (0usize, 30usize),
                (30usize, 71usize),
                (71usize, 160usize),
                (160usize, 200usize),
                (200usize, 275usize),
                (275usize, 284usize),
                (0usize, 0usize),
                (0usize, 0usize),
                (0usize, 0usize),
                (0usize, 0usize),
                (0usize, 0usize),
                (0usize, 0usize),
                (284usize, 285usize),
                (285usize, 286usize),
                (0usize, 0usize),
                (0usize, 0usize),
                (0usize, 0usize),
            ],
            // every window holds only moons owned by its kingdom
            forall|k: int, x: int|
                0 <= k < crate::kingdom::KINGDOM_COUNT && 0 <= x < m.spec_window(k).len()
                    ==> (#[trigger] m.spec_moon(m.spec_window(k)[x] as int)).spec_kingdom().as_index()
                    == k,
    {
        let mut moons: Vec<Moon> = Vec::new();
        let mut offset: Vec<(usize, usize)> = Vec::new();
        // cap kingdom
        let s: usize = moons.len();
        cap_moons(&mut moons);
        offset.push((s, moons.len()));
        // cascade kingdom
        let s: usize = moons.len();
        let lake27: usize = cascade_moons(&mut moons);
        offset.push((s, moons.len()));
        // sand kingdom
        let s: usize = moons.len();
        let (sand2, sand3, sand4, sand45): (usize, usize, usize, usize) = sand_moons_a(&mut moons);
        sand_moons_b(&mut moons, sand2, sand3, sand4, sand45);
        offset.push((s, moons.len()));
        // lake kingdom
        let s: usize = moons.len();
        lake_moons(&mut moons, lake27);
        offset.push((s, moons.len()));
        // wooded kingdom
        let s: usize = moons.len();
        let (wooded2, wooded4): (usize, usize) = wooded_moons_a(&mut moons);
        wooded_moons_b(&mut moons, wooded2, wooded4);
        offset.push((s, moons.len()));
        // cloud kingdom
        let s: usize = moons.len();
        cloud_moons(&mut moons);
        offset.push((s, moons.len()));
        // lost kingdom
        offset.push((0, 0));
        // metro kingdom
        offset.push((0, 0));
        // snow kingdom
        offset.push((0, 0));
        // seaside kingdom
        offset.push((0, 0));
        // luncheon kingdom
        offset.push((0, 0));
        // ruined kingdom
        offset.push((0, 0));
        // bowser's kingdom
        let s: usize = moons.len();
        bowser_moons(&mut moons);
        offset.push((s, moons.len()));
        // moon kingdom
        let s: usize = moons.len();
        moon_k_moons(&mut moons);
        offset.push((s, moons.len()));
        // mushroom kingdom
        offset.push((0, 0));
        // dark side
        offset.push((0, 0));
        // darker side
        offset.push((0, 0));
        let ghost ms = moons@;
        let ghost offs = offset@;
        proof {
            assert(crate::moon::parts_ok(moons@, offset@));
        }
        let r = Moons::from_parts(moons, offset);
        let result = r.unwrap();
        proof {
            assert(offs =~= seq![
                (0usize, 30usize),
                (30usize, 71usize),
                (71usize, 160usize),
                (160usize, 200usize),
                (200usize, 275usize),
                (275usize, 284usize),
                (0usize, 0usize),
                (0usize, 0usize),
                (0usize, 0usize),
                (0usize, 0usize),
                (0usize, 0usize),
                (0usize, 0usize),
                (284usize, 285usize),
                (285usize, 286usize),
                (0usize, 0usize),
                (0usize, 0usize),
                (0usize, 0usize),
            ]);
            assert(forall|i: int|
                0 <= i < 30 ==> (#[trigger] ms[i]).spec_kingdom() == KingdomName::Cap);
            assert(forall|i: int|
                30 <= i < 71 ==> (#[trigger] ms[i]).spec_kingdom() == KingdomName::Cascade);
            assert(forall|i: int|
                71 <= i < 160 ==> (#[trigger] ms[i]).spec_kingdom() == KingdomName::Sand);
            assert(forall|i: int|
                160 <= i < 200 ==> (#[trigger] ms[i]).spec_kingdom() == KingdomName::Lake);
            assert(forall|i: int|
                200 <= i < 275 ==> (#[trigger] ms[i]).spec_kingdom() == KingdomName::Wooded);
            assert(forall|i: int|
                275 <= i < 284 ==> (#[trigger] ms[i]).spec_kingdom() == KingdomName::Cloud);
            assert(forall|i: int|
                284 <= i < 285 ==> (#[trigger] ms[i]).spec_kingdom() == KingdomName::Bowser);
            assert(forall|i: int|
                285 <= i < 286 ==> (#[trigger] ms[i]).spec_kingdom() == KingdomName::Moon);
            assert forall|k: int, x: int|
                0 <= k < crate::kingdom::KINGDOM_COUNT && 0 <= x < result.spec_window(k).len()
                    implies (#[trigger] result.spec_moon(
                result.spec_window(k)[x] as int,
            )).spec_kingdom().as_index() == k by {
                let lo = offs[k].0 as int;
                let hi = offs[k].1 as int;
                assert(result.spec_window(k)[x] == result.spec_ids()[lo + x]);
                assert(result.spec_ids()[lo + x] == (lo + x) as MoonID);
                assert(result.spec_moon(lo + x).spec_kingdom() == ms[lo + x].spec_kingdom());
            }
        }
        result
    }

    /// A catalog with no moons and all windows empty.
    pub fn empty() -> (m: Moons)
        ensures
            m.wf(),
            m.spec_len() == 0,
    {
        let moons: Vec<Moon> = Vec::new();
        let mut offset: Vec<(usize, usize)> = Vec::new();
        let mut i: usize = 0;
        while i < crate::kingdom::KINGDOM_COUNT
            invariant
                0 <= i <= crate::kingdom::KINGDOM_COUNT,
                offset@.len() == i,
                forall|j: int| 0 <= j < i ==> (#[trigger] offset@[j]) == (0usize, 0usize),
            decreases crate::kingdom::KINGDOM_COUNT - i,
        {
            offset.push((0, 0));
            i = i + 1;
        }
        let r = Moons::from_parts(moons, offset);
        r.unwrap()
    }
}

} // verus!