//! Singular verb dictionary: 256 code words held in implicit
//! binary-search-tree order, written as lines of space-separated words.

use vstd::prelude::*;

use crate::lexicon::push_words;

verus! {

/// The verb_singular word list, in the order the search expects.
pub fn verb_singular_words() -> Vec<String> {
    let mut v: Vec<String> = Vec::new();
    push_words(&mut v, "nemof flougroan smidroad croofaink jidreas reetrauck tiodeap breaspear drospex");
    push_words(&mut v, "glunub loaplisk ploofrourm skookiost spooskox veaplaib bloogrush cleapros");
    push_words(&mut v, "doulib festaux frucog heafraub koutiont mioslot pefiolt preasmeem sebroost");
    push_words(&mut v, "slonax snoafloar sweaglot trausoad zafriol bleeteax boumoog broagub clubrear");
    push_words(&mut v, "dagloank dreepreeng drudaf flaiswas friocrult gitrugrus grouklif jaideamurk");
    push_words(&mut v, "klaubrird lebleelt maitraip naurol nouglest plaurol pougreek proobeng sabiont");
    push_words(&mut v, "skesnoan slauglous smaiboash sneefup spaurairm streblof tauwaix toohairk");
    push_words(&mut v, "trousnaim wasmoar zeaviost bausmoard bliodreant bofoort braisad brioneack");
    push_words(&mut v, "caukoarm clostriort croagult crousaus doblub drasperm droasoolt drouskeank");
    push_words(&mut v, "fagroarn filoang fleereet foocot froopront gegratrox glooweap groafaist");
    push_words(&mut v, "haistiolt hoanind jeenorm keetreerd kleeclaim kuwaip leklidris lopaurd");
    push_words(&mut v, "meedroorem mosoowang nebleep noazeak paubloost piodreem pleaproam plouspin");
    push_words(&mut v, "praufur prehit prousmouk rostroap saitor skaugund skoaskeb skospo sloblearm");
    push_words(&mut v, "slowon smeagior smiotas sneepoas spaikirm speprorn steagraid stroumas");
    push_words(&mut v, "swoobaung teejick tipoublain trasnant treplounk vaiflalt viotus waveem");
    push_words(&mut v, "zaustiolt zudiord batris blauzeem bleewost blistaish bodoarn boofron brableak");
    push_words(&mut v, "brastast brecreerm briroox buproarm claliosh cleeglaik clouwoa creanourm croma");
    push_words(&mut v, "croofrark crugraud dautream doofroag drabeelt dreablisk driweag droozult");
    push_words(&mut v, "droukeat drouskend durin fapleert fiklash fiostaunt flauloos flogaink");
    push_words(&mut v, "foaklault fragrot frismou frouboon gaipleerd geniost glefeem glostraist");
    push_words(&mut v, "greafloab groflaud grufloosk hauswam histoseerd hoaraplink jeanusliop jeewou");
    push_words(&mut v, "keegroan kiocior klausmiki koufrond kutab laiflea legoal lifoan loofliorm");
    push_words(&mut v, "louloal meameerk mefland mopoolt mounaimour neafratoop negep nepraink nosnob");
    push_words(&mut v, "paiklirt peajirk piloa plaiswerk plauspeark pliocairm plounoufoo poboust");
    push_words(&mut v, "praisped praulab preeglub priblouk prooslof redrahee rojaung rusla sagoot");
    push_words(&mut v, "saizaund siostaclau skeaswist skiosax skoatoab skootroong skotiocrum");
    push_words(&mut v, "sloacraish slokoorm slooroosh slusmiord smaplaink smeceel smiosmisk snaclault");
    push_words(&mut v, "sneepeeb snitrion souvatroob spaipreash speagoung spoofroang spuwep strasmaird");
    push_words(&mut v, "stroajead swawuskink sweebloorn swoupiont teegoo tewuf tiozeedeb toocrar");
    push_words(&mut v, "toution traspund trauswid troreab vaibriond vaikaisk viohounk voospaurm waujes");
    push_words(&mut v, "woakainoon zaupreel zeaplo zoasnear zustrilt bagroung");
    v
}

} // verus!
