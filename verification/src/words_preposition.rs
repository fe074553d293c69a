//! Preposition dictionary: 512 code words held in implicit
//! binary-search-tree order, written as lines of space-separated words.

use vstd::prelude::*;

use crate::lexicon::push_words;

verus! {

/// The preposition word list, in the order the search expects.
pub fn preposition_words() -> Vec<String> {
    let mut v: Vec<String> = Vec::new();
    push_words(&mut v, "nioplaurk fuspeceesh speagreeck coowiom joastur skacaze toustish breeseesk");
    push_words(&mut v, "druglourm gremart lestrend preezoad smagiolt streload weblount bliocleelt");
    push_words(&mut v, "ceapon dereap flogroox glihojeert hesmirk kliobrourn miocoorn pleeneert risnai");
    push_words(&mut v, "slajong sneesak steafrod swooploo vebreeg zauvaum blagliont boobros bropluf");
    push_words(&mut v, "cloadoucer daicaunk draupouf flaunerd fraufain geagliom gooleax grufad");
    push_words(&mut v, "jeadriong keestroug kuglitaum louwark naitait pauvespaik plublefruk pruviproup");
    push_words(&mut v, "sauzutrut skiospoosk sliosnup smireack snoklining spopleard stoolios stustrurd");
    push_words(&mut v, "ticreag troamoarm voutoa woolan zoatusk berapar blealoont bloosmux braubauck");
    push_words(&mut v, "briohoosh caistraud claimur clugreb criloax daspaurd diofiond drohairm fakleak");
    push_words(&mut v, "flegior fluwart froodrord gaisoum glauwauk gloskad greafring grooprix hazor");
    push_words(&mut v, "hitos jidrod kaimeend kleajios koadupat leapank livaung measkion moozoord");
    push_words(&mut v, "neareenap noopoos pefaib ploloor praismat proarork rastaglu rootreel secroolt");
    push_words(&mut v, "skeeklunt skougoong sleesneaf sloowiolt smausnaung smookliof snenurt souskoast");
    push_words(&mut v, "spespos staidrail stoaklouk strauvaud striviord swauflort tasmust tislep");
    push_words(&mut v, "tresnolt trucraurt voasnearn wailit wisain zaifaul zegloox zoozand beablul");
    push_words(&mut v, "biogrunk blaislung blefior bloafof boapraumid braimourt breegrog breliof");
    push_words(&mut v, "broahaud bruzoag caupast ciobroab clestreg clooskoul coafid crauviob crooween");
    push_words(&mut v, "daigoswiox denest digroar doaclaun drework drowook dujock fiomasturm fleafleal");
    push_words(&mut v, "flespan floolint fraidaix freecrelt fucib gabrousk gapaim giozoank gleanick");
    push_words(&mut v, "gloadring goavaust goumear greaspeern groacaunt grougal gusmaish heapreark");
    push_words(&mut v, "hiospaund hootest jeatrabird jiogrenk justud kaveard klauprix kleeglos");
    push_words(&mut v, "kloagref koatus lairar lebind liofronk lostrod mahag mibaird modoud mustrosk");
    push_words(&mut v, "napont neestrairk niprauk notig peeklaurt pleazig plibig ploufrouck poukirt");
    push_words(&mut v, "prauswoult prewiswusk protearn raisnoox riowoord roogriop rotrauf seagleflex");
    push_words(&mut v, "segejirm skaibounk skeplujek skoboob slaifream sleamim sleziojort sloosteart");
    push_words(&mut v, "slosperd smatirm smeesiog smocalt snarizurm sneeslusk sniodrea snougal spaizug");
    push_words(&mut v, "speesloond spooswind spouwex stasurn steskesh stoasus stouliord streekle");
    push_words(&mut v, "strepraid stroatoub swaihurk swawaing swutroung tepeeb tiotoolt tooniort");
    push_words(&mut v, "treesnourn triosnelt trooblorm tudol veroaklird vocarn vusuziost waskeenk");
    push_words(&mut v, "weeveank woaskiong wouprir zastriop zeesliok ziocin zoojeax zoweed baslopler");
    push_words(&mut v, "beloorm bezeam blacroas blaiker blalealt bleewiog blikurk bliorost bloasloor");
    push_words(&mut v, "blounex boasteelt bosmutrunk braizush brecufeb breerufong breezaig brigreap");
    push_words(&mut v, "broagliont brootes brudrubeek budrel caskurk ceakliom ceecloat clagoril");
    push_words(&mut v, "cleakil cloabook clooproash clugoulul cluraur coataunk cougraclef creeflaut");
    push_words(&mut v, "crioploug crouflilt daicoahash dakleel deacrant deplio deskout diobroarn");
    push_words(&mut v, "diskourm drasnurt drenoat droaspearm droobrard drudoa druplef duspoadras");
    push_words(&mut v, "fewobroank flaipreask flauproant flealaub fleslagrel flofrurk flooclaul");
    push_words(&mut v, "flubreeb foasot fraiswult frauslort friocrung froosnaush fupairk fuwid gafoart");
    push_words(&mut v, "gaklub gaucroak geasmood glaipaunk gleaheep glecleesh gloadrert gloodrult");
    push_words(&mut v, "goastroont gokaukul gotairn grauzio greagrort greepliof griglird groasmern");
    push_words(&mut v, "grotroock groukeent gufles haiprunt heaglof heawoond hifrewoark hiowoglird");
    push_words(&mut v, "hooplourn houtreex jeajam jibrex jiobriod jiospaund jounoob kaihend kastiglurk");
    push_words(&mut v, "keeplosk klagleank kleafeef kleawurd kleheg kloacedoar klusmout koagreack");
    push_words(&mut v, "kocaunk laicraund lairoub leasteant leebart liocoont lioprint loopout lounom");
    push_words(&mut v, "lupraurd mausnom meeflart miobot miofat moomeawoan mukling naisleend nanask");
    push_words(&mut v, "nearaung neesnurd nesnatab niosnu noomoas nooswuck paproos peafox peereal");
    push_words(&mut v, "piocrel pleeceand pleevusk ploasais ploofleag plovoclut posleant poutrud");
    push_words(&mut v, "praujaim prauzond prehain prihoarm proogloolt prufeat raidoumas rakeek");
    push_words(&mut v, "reasmeerm riread roofoabio rooseend roswib sableent seadrack seasmaurm sedrem");
    push_words(&mut v, "sionax skaheadird skeaklerm skemund skidriong skoagliox skoufind slahoond");
    push_words(&mut v, "slaileack slaklit sleatick slerauck slicurm sloclund sloovoand slopeebel");
    push_words(&mut v, "slufiosh smairoul smauklaik smeabag smefaum smoacip smogak snaijeank snecrut");
    push_words(&mut v, "sneeskiog sneespoor snewaud snoatrairk snooblag sojad souzig speafrish");
    push_words(&mut v, "speajearm speeweark spoocroash spopiolt spougeank stageand staiswoord steabisk");
    push_words(&mut v, "steefrund stibraurk stoaslaik stoawior stooseeng stounaupra streapoorm");
    push_words(&mut v, "streesnelt streprack strionan stroadish struprerd swabroult swaucairn");
    push_words(&mut v, "swaujourd sweezesmig swusiox taistof teespeang teprees tika tiozoult todraip");
    push_words(&mut v, "tooroumaur traicreerk trelix triosaink trisnuk trodok trucault trufeakurm");
    push_words(&mut v, "vauwok veepaub veroun voasof voospouf vouvoclion waicoof waiskaurm waudiop");
    push_words(&mut v, "weeslublob weziod woasarn woblaust wougeand wozoap zaslaunk zauprush zeaslaung");
    push_words(&mut v, "zeetourd zifraib zoataug zomogloux zoojeazert zotad zugrash baimoat");
    v
}

} // verus!
