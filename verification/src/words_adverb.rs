//! Adverb dictionary: 512 code words held in implicit
//! binary-search-tree order, written as lines of space-separated words.

use vstd::prelude::*;

use crate::lexicon::push_words;

verus! {

/// The adverb word list, in the order the search expects.
pub fn adverb_words() -> Vec<String> {
    let mut v: Vec<String> = Vec::new();
    push_words(&mut v, "mucairk foaclog snustoal croaglaurm hirep reastriorm tetroung brusweed");
    push_words(&mut v, "driosmiob glopuf kleagraim ploleabeb sloobroush strougeck vuflaurd blusont");
    push_words(&mut v, "cloosmeal deeflef flauspult gaswaiwees griosliot jotrouzerk legorn paubrorm");
    push_words(&mut v, "poowaind skaizeert smoaskee staroa swiftly trispoork wostaup bleaflish bridusk");
    push_words(&mut v, "clasleern crausoont crousniok douslo faucrior flioswon friomim glaucoar");
    push_words(&mut v, "grauseal hatraunt jeeceerd kaveajion klouclaisk manand noastreer plaugeturm");
    push_words(&mut v, "pludoand procaux rubricroux skoustaind smauhourk sniblack spioratask stoasard");
    push_words(&mut v, "swaroud swumeerd tragoux vibreeng weglont zetast bioward bloosort braitiol");
    push_words(&mut v, "brooceand cehoask cleastreal clupeem cresung croklail daispird doacrau");
    push_words(&mut v, "draufloosk drosneerk feegert fleeswoag flufloarn freclan fruwad giskai");
    push_words(&mut v, "gleesnoag goosnord grespul groroand hegresk jaupleak jinaibost jouspeesk");
    push_words(&mut v, "keeskelt klikoosh laisweeg liswodren meestreat neaglion noutoad peaglard");
    push_words(&mut v, "pliosmeed plouriomid pobeern prepeerm rahouhiord rokoort saustraub skitriok");
    push_words(&mut v, "sliobru smabrash smekiodrul snaijut snotaijoat sosteent spooskai stiodoust");
    push_words(&mut v, "streteeb stusing sweabliox swoostrirt tageecirt tooskoosh trautrad trukax");
    push_words(&mut v, "voclin wausaif wocleekiog wupeam zoasmauhat beezoorn blarob blepesul blugli");
    push_words(&mut v, "boohet breesnoark briwend brouniot ceagiop ciostroam claustrook cliogra");
    push_words(&mut v, "cloukebloa coosneant creekid cristeerm croflub croplird cuzeapiod deaskorn");
    push_words(&mut v, "demecred dopoos draistowes draurasnif droaseart dupoon feamokeant fioglaut");
    push_words(&mut v, "fleboort flioslurk flogaunt flupleek fraijairm friclaus froasleer gacoop");
    push_words(&mut v, "gekoult glaigup glaugeant gliogloon goasmimoux grahip greelan grikloult");
    push_words(&mut v, "groalau guslas heagealel hiobliork hoavoudash jeablish jidewoom jobroazosh");
    push_words(&mut v, "joucland katu keagruck kiozig klesnunog kloavoast koupreern leasnairk licoam");
    push_words(&mut v, "lobraud maurip mookark naustuf nijat nopriog nupreang paustrairk piosmoum");
    push_words(&mut v, "plelekealt ploablast ploogrior plouspourd pluswel pofrauvoom prauseand");
    push_words(&mut v, "prioskant prostreem raikoam riplek roovask rusok skainoon skeabloum skosped");
    push_words(&mut v, "sleedoum sloafreank sloucung smaskeerd smeatroag smiogleesk smoudoalt");
    push_words(&mut v, "snaucrukeb snoaprour snubloom soatiob spebob spoomot staidrong steesmex");
    push_words(&mut v, "stiokleras streebash strispock strudaisk suskord swaunofrar swevekiond");
    push_words(&mut v, "swobrearn swoswoad tadaut tairoond tiofreg tougoorn trastroam trewap troocrous");
    push_words(&mut v, "vado voakeed voroonk wasteck weeblujab widoas wookeng wuklais zeboult zifliock");
    push_words(&mut v, "zostrounk basnaux bioskealt blaifroarn blaubround bleeswool bloagard blousmiol");
    push_words(&mut v, "blusnoon bogeesnolt braibe breafiort bribolid brisnorn broabloult broomain");
    push_words(&mut v, "brugoot caispim ceegout ciohink claicut claukert cleabren cligiot cloafelt");
    push_words(&mut v, "clotriorm clovis coodral cracroab creasnup crekloun cricist croafeart croavunt");
    push_words(&mut v, "crohiof croojain crouploosk cuprag dagauf dauroab deecoond deerosmork digalt");
    push_words(&mut v, "doaklaub dosi draireek draskant draukourk drimaick droagres drooproab drugroud");
    push_words(&mut v, "faitrur fauhausk feastiog ficoucrit flauskiok flaweeral fleeflirn flibrofron");
    push_words(&mut v, "fliostaurm floaklaurt flucrish flugroo fluteal fosoat freblal fredoug");
    push_words(&mut v, "friogeesk froafram froskab fugraunt gagasmeerd geeglir gikig glaigoarm");
    push_words(&mut v, "glaistourm glaufrousk gleafraunk glerean gloanum goaprairm gooherd goskiceem");
    push_words(&mut v, "graunird greeblauk greewood grespun grikoock groages groosmub grosloas guwik");
    push_words(&mut v, "hausnent heavaunt hekliowaum hiosisnip hoahaum jagis jausloack jeaskas");
    push_words(&mut v, "jeesoord jikuk jisoak jospern joubloult jouloheam kaigloop kausnist kawoud");
    push_words(&mut v, "keapil kiosnunish klaunourm klesleel klidiorn klionutant klooglesh kluheesk");
    push_words(&mut v, "kuhirt leaperk leaswoul leplit liplound loaweer luleck masmul measeef moklart");
    push_words(&mut v, "mooweeb naiblob neabip nifoucloob nioskaurn nooblonk nousoaflio nouwark");
    push_words(&mut v, "paubourm pausnard peacroank peeprunk plajeg plauslarn pleskeack plispour");
    push_words(&mut v, "ploajost ploofloog ploosnard plousleal plouswarm plusment poastreen podraug");
    push_words(&mut v, "pomeajeng poskoup preespearm primoul proahaist prospob pudrat raifreag");
    push_words(&mut v, "rausliomep riogrourt roastux roleap rouzairn rufiocrart safaur semung skaisos");
    push_words(&mut v, "skauhont skiosmurk skoslaus skoukeas slahix sleeroort slisoaf sloameer");
    push_words(&mut v, "slopeark slugresh smamem smaudaut smeapraud smeemim smilaup smiozais smoglaung");
    push_words(&mut v, "smoudrourn snaikaind snepoang sniocrarm snokirm snozeeck snusoam soagool");
    push_words(&mut v, "soblefent spainoush spineend spitroa spooread staibliod stairof staulosk");
    push_words(&mut v, "steveesh stiodrub stispert stosnam streesneax stretool strookeart strovab");
    push_words(&mut v, "struteef sulilt swanoord swastount swawaink sweesmur swidim swiofrux swoodut");
    push_words(&mut v, "swoowouk swouzeleap swupair tadraun tahist teagoam tiocugoox toofring");
    push_words(&mut v, "toostrust towef traistof traswid treakerm tripub troastank troodround tulux");
    push_words(&mut v, "veestourt viobees voasoart vooblaubea vosnair vusees wauga weaswaid weeredrut");
    push_words(&mut v, "wepoad wiosmud woojoarm wootrom wufloat wuklaurt zalaid zejoslaish zetior");
    push_words(&mut v, "zoasim zoograim zugril baislaig");
    v
}

} // verus!
